//! The outputs of a build, in alphabetical order of their names.
use vstd::prelude::*;

verus! {

/// What `String::from_utf8_lossy` makes of `bytes`.
pub uninterp spec fn utf8_lossy(bytes: Seq<u8>) -> Seq<char>;

/// Wraps `String::from_utf8_lossy` of std, made owned. The result depends on the bytes alone.
/// Bytes that are valid UTF-8 are decoded as they stand. Which replacement characters stand for
/// other bytes is left to the name.
#[verifier::external_body]
fn from_utf8_lossy(bytes: &[u8]) -> (r: String)
    ensures
        r@ == utf8_lossy(bytes@),
        vstd::utf8::valid_utf8(bytes@) ==> r@ == vstd::utf8::decode_utf8(bytes@),
{
    String::from_utf8_lossy(bytes).into_owned()
}

/// Whether `a` comes before `b`: it does at the first byte in which they differ, or it is a
/// proper beginning of `b`.
pub open spec fn bytes_before(a: Seq<u8>, b: Seq<u8>) -> bool
    decreases a.len(),
{
    if b.len() == 0 {
        false
    } else if a.len() == 0 {
        true
    } else if a[0] != b[0] {
        a[0] < b[0]
    } else {
        bytes_before(a.skip(1), b.skip(1))
    }
}

/// The order of names: that of their UTF-8 bytes.
pub open spec fn name_before(a: Seq<char>, b: Seq<char>) -> bool {
    bytes_before(vstd::utf8::encode_utf8(a), vstd::utf8::encode_utf8(b))
}

/// How two names stand to each other.
enum NameOrder {
    Before,
    Same,
    After,
}

proof fn lemma_bytes_before_irreflexive(a: Seq<u8>)
    ensures
        !bytes_before(a, a),
    decreases a.len(),
{
    if a.len() > 0 {
        lemma_bytes_before_irreflexive(a.skip(1));
    }
}

proof fn lemma_bytes_before_transitive(a: Seq<u8>, b: Seq<u8>, c: Seq<u8>)
    requires
        bytes_before(a, b),
        bytes_before(b, c),
    ensures
        bytes_before(a, c),
    decreases a.len(),
{
    if a.len() > 0 && a[0] == b[0] && b[0] == c[0] {
        lemma_bytes_before_transitive(a.skip(1), b.skip(1), c.skip(1));
    }
}

proof fn lemma_bytes_before_total(a: Seq<u8>, b: Seq<u8>)
    ensures
        bytes_before(a, b) || a == b || bytes_before(b, a),
    decreases a.len(),
{
    if a.len() > 0 && b.len() > 0 && a[0] == b[0] {
        lemma_bytes_before_total(a.skip(1), b.skip(1));
        if a.skip(1) == b.skip(1) {
            assert(b =~= seq![b[0]] + b.skip(1));
        }
    }
}

proof fn lemma_encode_injective(a: Seq<char>, b: Seq<char>)
    requires
        vstd::utf8::encode_utf8(a) == vstd::utf8::encode_utf8(b),
    ensures
        a == b,
{
    vstd::utf8::encode_utf8_decode_utf8(a);
    vstd::utf8::encode_utf8_decode_utf8(b);
}

/// The order of names is a strict total order.
pub proof fn law_name_order(a: Seq<char>, b: Seq<char>, c: Seq<char>)
    ensures
        !name_before(a, a),
        name_before(a, b) && name_before(b, c) ==> name_before(a, c),
        name_before(a, b) || a == b || name_before(b, a),
{
    let x = vstd::utf8::encode_utf8(a);
    let y = vstd::utf8::encode_utf8(b);
    let z = vstd::utf8::encode_utf8(c);
    lemma_bytes_before_irreflexive(x);
    if bytes_before(x, y) && bytes_before(y, z) {
        lemma_bytes_before_transitive(x, y, z);
    }
    lemma_bytes_before_total(x, y);
    if x == y {
        lemma_encode_injective(a, b);
    }
}

/// Compares two names.
fn order_names(a: &str, b: &str) -> (r: NameOrder)
    ensures
        match r {
            NameOrder::Before => name_before(a@, b@),
            NameOrder::Same => a@ == b@,
            NameOrder::After => name_before(b@, a@),
        },
{
    let x = a.as_bytes();
    let y = b.as_bytes();
    let mut i: usize = 0;
    assert(x@.skip(0) =~= x@);
    assert(y@.skip(0) =~= y@);
    while i < x.len() && i < y.len()
        invariant
            i <= x.len(),
            i <= y.len(),
            x@.take(i as int) == y@.take(i as int),
            bytes_before(x@, y@) == bytes_before(x@.skip(i as int), y@.skip(i as int)),
            bytes_before(y@, x@) == bytes_before(y@.skip(i as int), x@.skip(i as int)),
            x@ == vstd::utf8::encode_utf8(a@),
            y@ == vstd::utf8::encode_utf8(b@),
        decreases x.len() - i,
    {
        if x[i] < y[i] {
            return NameOrder::Before;
        }
        if y[i] < x[i] {
            return NameOrder::After;
        }
        assert(x@.skip(i as int).skip(1) =~= x@.skip(i + 1));
        assert(y@.skip(i as int).skip(1) =~= y@.skip(i + 1));
        i = i + 1;
    }
    if i < y.len() {
        NameOrder::Before
    } else if i < x.len() {
        NameOrder::After
    } else {
        proof {
            lemma_encode_injective(a@, b@);
        }
        NameOrder::Same
    }
}

/// Each name comes before the ones behind it; so none occurs twice.
pub open spec fn names_ascend<P>(entries: Seq<(Seq<char>, P)>) -> bool {
    forall|i: int, j: int|
        0 <= i < j < entries.len() ==> name_before(#[trigger] entries[i].0, #[trigger] entries[j].0)
}

/// What `entries` hold under each name.
pub open spec fn outputs_map<P>(entries: Seq<(Seq<char>, P)>) -> Map<Seq<char>, P>
    decreases entries.len(),
{
    if entries.len() == 0 {
        Map::empty()
    } else {
        outputs_map(entries.drop_last()).insert(entries.last().0, entries.last().1)
    }
}

/// Named outputs; `P` is the store path of one.
#[derive(Debug)]
pub struct Outputs<P> {
    entries: Vec<(String, P)>,
}

/// The entries with their names as texts.
spec fn entries_model<P>(entries: Seq<(String, P)>) -> Seq<(Seq<char>, P)> {
    entries.map_values(|e: (String, P)| (e.0@, e.1))
}

impl<P> View for Outputs<P> {
    type V = Seq<(Seq<char>, P)>;

    /// The names and paths, in the order in which they are handed out.
    closed spec fn view(&self) -> Seq<(Seq<char>, P)> {
        entries_model(self.entries@)
    }
}

/// `entries` hold `path` under `name` exactly if one of them says so.
proof fn lemma_outputs_map<P>(entries: Seq<(Seq<char>, P)>)
    requires
        names_ascend(entries),
    ensures
        forall|i: int|
            0 <= i < entries.len() ==> outputs_map(entries).contains_key(
                (#[trigger] entries[i]).0,
            ) && outputs_map(entries)[entries[i].0] == entries[i].1,
        forall|name: Seq<char>| #[trigger]
            outputs_map(entries).contains_key(name) ==> exists|i: int|
                0 <= i < entries.len() && (#[trigger] entries[i]).0 == name,
    decreases entries.len(),
{
    if entries.len() > 0 {
        let init = entries.drop_last();
        let last = entries.len() - 1;
        lemma_outputs_map(init);
        assert forall|i: int| 0 <= i < entries.len() implies outputs_map(entries).contains_key(
            (#[trigger] entries[i]).0,
        ) && outputs_map(entries)[entries[i].0] == entries[i].1 by {
            if i < last {
                assert(init[i] == entries[i]);
                law_name_order(entries[i].0, entries[last].0, entries[last].0);
            }
        }
        assert forall|name: Seq<char>| #[trigger]
            outputs_map(entries).contains_key(name) implies exists|i: int|
            0 <= i < entries.len() && (#[trigger] entries[i]).0 == name by {
            if name != entries[last].0 {
                assert(outputs_map(init).contains_key(name));
            }
        }
    }
}

impl<P> Outputs<P> {
    /// The names ascend.
    pub open spec fn wf(self) -> bool {
        names_ascend(self@)
    }

    /// No outputs.
    pub fn new() -> (r: Outputs<P>)
        ensures
            r.wf(),
            r@ == Seq::<(Seq<char>, P)>::empty(),
    {
        Outputs { entries: Vec::new() }
    }

    /// Where `name` stands, or else where it belongs.
    fn search(&self, name: &str) -> (r: (usize, bool))
        requires
            self.wf(),
        ensures
            r.0 <= self@.len(),
            r.1 ==> r.0 < self@.len() && self@[r.0 as int].0 == name@,
            forall|j: int| 0 <= j < r.0 ==> name_before((#[trigger] self@[j]).0, name@),
            !r.1 ==> forall|j: int|
                r.0 <= j < self@.len() ==> name_before(name@, (#[trigger] self@[j]).0),
    {
        let mut i: usize = 0;
        while i < self.entries.len()
            invariant
                self.wf(),
                i <= self.entries.len(),
                self@.len() == self.entries.len(),
                forall|j: int| 0 <= j < i ==> name_before((#[trigger] self@[j]).0, name@),
            decreases self.entries.len() - i,
        {
            match order_names(self.entries[i].0.as_str(), name) {
                NameOrder::Before => {},
                NameOrder::Same => {
                    return (i, true);
                },
                NameOrder::After => {
                    assert forall|j: int| i <= j < self@.len() implies name_before(
                        name@,
                        (#[trigger] self@[j]).0,
                    ) by {
                        if j > i {
                            law_name_order(name@, self@[i as int].0, self@[j].0);
                        }
                    }
                    return (i, false);
                },
            }
            i = i + 1;
        }
        (i, false)
    }

    /// Puts `path` under `name`, in place of what stood under it.
    pub fn insert(&mut self, name: String, path: P)
        requires
            old(self).wf(),
        ensures
            final(self).wf(),
            outputs_map(final(self)@) == outputs_map(old(self)@).insert(name@, path),
    {
        let (i, found) = self.search(name.as_str());
        let ghost before = self@;
        let ghost entry = (name@, path);
        if found {
            self.entries.set(i, (name, path));
            assert(self@ =~= before.update(i as int, entry));
            proof {
                lemma_entry_replaced(before, i as int, entry);
            }
        } else {
            self.entries.insert(i, (name, path));
            assert(self@ =~= before.insert(i as int, entry));
            proof {
                lemma_entry_inserted(before, i as int, entry);
            }
        }
    }

    /// Takes in one output as the C API reports it: the bytes of its name before the terminating
    /// NUL, and its path. Bytes of the name that are not UTF-8 are replaced.
    pub fn report(&mut self, name: &[u8], path: P)
        requires
            old(self).wf(),
        ensures
            final(self).wf(),
            outputs_map(final(self)@) == outputs_map(old(self)@).insert(utf8_lossy(name@), path),
            vstd::utf8::valid_utf8(name@) ==> outputs_map(final(self)@) == outputs_map(
                old(self)@,
            ).insert(vstd::utf8::decode_utf8(name@), path),
    {
        let name = from_utf8_lossy(name);
        self.insert(name, path);
    }

    /// The path under `name`.
    pub fn get(&self, name: &str) -> (r: Option<&P>)
        requires
            self.wf(),
        ensures
            match r {
                Some(path) => outputs_map(self@).contains_key(name@) && *path == outputs_map(
                    self@,
                )[name@],
                None => !outputs_map(self@).contains_key(name@),
            },
    {
        let (i, found) = self.search(name);
        proof {
            lemma_outputs_map(self@);
        }
        if found {
            Some(&self.entries[i].1)
        } else {
            proof {
                law_name_order(name@, name@, name@);
            }
            None
        }
    }

    /// The names and paths, in alphabetical order of the names.
    pub fn into_entries(self) -> (r: Vec<(String, P)>)
        requires
            self.wf(),
        ensures
            r@.map_values(|e: (String, P)| (e.0@, e.1)) == self@,
            names_ascend(self@),
    {
        self.entries
    }
}

proof fn lemma_entry_replaced<P>(before: Seq<(Seq<char>, P)>, i: int, entry: (Seq<char>, P))
    requires
        names_ascend(before),
        0 <= i < before.len(),
        before[i].0 == entry.0,
    ensures
        names_ascend(before.update(i, entry)),
        outputs_map(before.update(i, entry)) == outputs_map(before).insert(entry.0, entry.1),
{
    let after = before.update(i, entry);
    lemma_outputs_map(before);
    lemma_outputs_map(after);
    let wanted = outputs_map(before).insert(entry.0, entry.1);
    assert forall|n: Seq<char>| #[trigger] outputs_map(after).contains_key(n) implies
        wanted.contains_key(n) && outputs_map(after)[n] == wanted[n] by {
        law_name_order(n, n, n);
    }
    assert forall|n: Seq<char>| #[trigger] wanted.contains_key(n) implies outputs_map(
        after,
    ).contains_key(n) by {
        if n == entry.0 {
            assert(after[i].0 == n);
        } else {
            let j = choose|j: int| 0 <= j < before.len() && (#[trigger] before[j]).0 == n;
            assert(after[j].0 == n);
        }
    }
}

proof fn lemma_entry_inserted<P>(before: Seq<(Seq<char>, P)>, i: int, entry: (Seq<char>, P))
    requires
        names_ascend(before),
        0 <= i <= before.len(),
        forall|j: int| 0 <= j < i ==> name_before((#[trigger] before[j]).0, entry.0),
        forall|j: int| i <= j < before.len() ==> name_before(entry.0, (#[trigger] before[j]).0),
    ensures
        names_ascend(before.insert(i, entry)),
        outputs_map(before.insert(i, entry)) == outputs_map(before).insert(entry.0, entry.1),
{
    let after = before.insert(i, entry);
    lemma_outputs_map(before);
    lemma_outputs_map(after);
    let wanted = outputs_map(before).insert(entry.0, entry.1);
    assert forall|n: Seq<char>| #[trigger] outputs_map(after).contains_key(n) implies
        wanted.contains_key(n) && outputs_map(after)[n] == wanted[n] by {
        law_name_order(n, n, n);
    }
    assert forall|n: Seq<char>| #[trigger] wanted.contains_key(n) implies outputs_map(
        after,
    ).contains_key(n) by {
        if n == entry.0 {
            assert(after[i].0 == n);
        } else {
            let j = choose|j: int| 0 <= j < before.len() && (#[trigger] before[j]).0 == n;
            if j < i {
                assert(after[j].0 == n);
            } else {
                assert(after[j + 1].0 == n);
            }
        }
    }
}

/// The order in which outputs are handed out is determined by what they hold: two lists in
/// alphabetical order that hold the same under each name are the same list.
pub proof fn law_order_is_determined<P>(a: Seq<(Seq<char>, P)>, b: Seq<(Seq<char>, P)>)
    requires
        names_ascend(a),
        names_ascend(b),
        outputs_map(a) == outputs_map(b),
    ensures
        a == b,
    decreases a.len(),
{
    lemma_outputs_map(a);
    lemma_outputs_map(b);
    if a.len() > 0 {
        let la = a.len() - 1;
        let lb = b.len() - 1;
        let i = choose|i: int| 0 <= i < b.len() && (#[trigger] b[i]).0 == a[la].0;
        assert(outputs_map(a).contains_key(b[lb].0));
        if i < lb {
            law_name_order(a[la].0, b[lb].0, a[la].0);
        }
        lemma_map_without_last(a);
        lemma_map_without_last(b);
        law_order_is_determined(a.drop_last(), b.drop_last());
        assert(b =~= b.drop_last().push(b[lb]));
    }
}

proof fn lemma_map_without_last<P>(entries: Seq<(Seq<char>, P)>)
    requires
        names_ascend(entries),
        entries.len() > 0,
    ensures
        names_ascend(entries.drop_last()),
        outputs_map(entries.drop_last()) == outputs_map(entries).remove(entries.last().0),
{
    let init = entries.drop_last();
    let last = entries.len() - 1;
    lemma_outputs_map(init);
    if outputs_map(init).contains_key(entries[last].0) {
        let i = choose|i: int| 0 <= i < init.len() && (#[trigger] init[i]).0 == entries[last].0;
        law_name_order(entries[i].0, entries[last].0, entries[last].0);
    }
}

/// Of several reports under one name, the last one counts.
pub proof fn law_last_report_counts<P>(reports: Seq<(Seq<char>, P)>, i: int)
    requires
        0 <= i < reports.len(),
        forall|j: int| i < j < reports.len() ==> (#[trigger] reports[j]).0 != reports[i].0,
    ensures
        outputs_map(reports).contains_key(reports[i].0),
        outputs_map(reports)[reports[i].0] == reports[i].1,
    decreases reports.len(),
{
    let last = reports.len() - 1;
    if i < last {
        let init = reports.drop_last();
        law_last_report_counts(init, i);
    }
}

/// Nothing is held under a name that was never reported.
pub proof fn law_only_reported_names<P>(reports: Seq<(Seq<char>, P)>, name: Seq<char>)
    requires
        outputs_map(reports).contains_key(name),
    ensures
        exists|i: int| 0 <= i < reports.len() && (#[trigger] reports[i]).0 == name,
    decreases reports.len(),
{
    if reports.len() > 0 {
        let init = reports.drop_last();
        if reports.last().0 != name {
            law_only_reported_names(init, name);
        }
    }
}

/// A common beginning does not matter to the order.
proof fn lemma_bytes_before_common(p: Seq<u8>, x: Seq<u8>, y: Seq<u8>)
    ensures
        bytes_before(p + x, p + y) == bytes_before(x, y),
    decreases p.len(),
{
    if p.len() == 0 {
        assert(p + x =~= x);
        assert(p + y =~= y);
    } else {
        lemma_bytes_before_common(p.skip(1), x, y);
        assert((p + x).skip(1) =~= p.skip(1) + x);
        assert((p + y).skip(1) =~= p.skip(1) + y);
    }
}

/// Bytes that are smaller at the first difference come before, whatever follows.
proof fn lemma_bytes_before_at(a: Seq<u8>, b: Seq<u8>, k: int)
    requires
        0 <= k < a.len(),
        k < b.len(),
        forall|i: int| 0 <= i < k ==> a[i] == b[i],
        a[k] < b[k],
    ensures
        bytes_before(a, b),
{
    let p = a.take(k);
    lemma_bytes_before_common(p, a.skip(k), b.skip(k));
    assert(p + a.skip(k) =~= a);
    assert(p + b.skip(k) =~= b);
}

/// The UTF-8 bytes of a character with a smaller code point come before those of one with a
/// larger code point, whatever follows.
proof fn lemma_scalar_before(c: char, d: char, x: Seq<u8>, y: Seq<u8>)
    requires
        (c as u32) < (d as u32),
    ensures
        bytes_before(
            vstd::utf8::encode_scalar(c as u32) + x,
            vstd::utf8::encode_scalar(d as u32) + y,
        ),
{
    let s = c as u32;
    let t = d as u32;
    vstd::utf8::char_is_scalar(c);
    vstd::utf8::char_is_scalar(d);
    let a = vstd::utf8::encode_scalar(s) + x;
    let b = vstd::utf8::encode_scalar(t) + y;
    if s <= 0x7F {
        if t <= 0x7F {
            assert(((s & 0x7F) as u8) < ((t & 0x7F) as u8)) by (bit_vector)
                requires
                    s < t,
                    t <= 0x7F,
            ;
        } else {
            assert(((s & 0x7F) as u8) < 0x80u8) by (bit_vector);
            assert((0xC0u8 | ((t >> 6) & 0x1F) as u8) >= 0x80u8) by (bit_vector);
            assert((0xE0u8 | ((t >> 12) & 0x0F) as u8) >= 0x80u8) by (bit_vector);
            assert((0xF0u8 | ((t >> 18) & 0x07) as u8) >= 0x80u8) by (bit_vector);
        }
        lemma_bytes_before_at(a, b, 0);
    } else if s <= 0x7FF {
        let a0 = 0xC0u8 | ((s >> 6) & 0x1F) as u8;
        if t <= 0x7FF {
            let b0 = 0xC0u8 | ((t >> 6) & 0x1F) as u8;
            assert((0xC0u8 | ((s >> 6) & 0x1F) as u8) < (0xC0u8 | ((t >> 6) & 0x1F) as u8) || ((
            0xC0u8 | ((s >> 6) & 0x1F) as u8) == (0xC0u8 | ((t >> 6) & 0x1F) as u8) && (0x80u8 | (s
                & 0x3F) as u8) < (0x80u8 | (t & 0x3F) as u8))) by (bit_vector)
                requires
                    s < t,
                    t <= 0x7FF,
            ;
            if a0 < b0 {
                lemma_bytes_before_at(a, b, 0);
            } else {
                lemma_bytes_before_at(a, b, 1);
            }
        } else {
            assert((0xC0u8 | ((s >> 6) & 0x1F) as u8) < 0xE0u8) by (bit_vector);
            assert((0xE0u8 | ((t >> 12) & 0x0F) as u8) >= 0xE0u8) by (bit_vector);
            assert((0xF0u8 | ((t >> 18) & 0x07) as u8) >= 0xE0u8) by (bit_vector);
            lemma_bytes_before_at(a, b, 0);
        }
    } else if s <= 0xFFFF {
        if t <= 0xFFFF {
            let a0 = 0xE0u8 | ((s >> 12) & 0x0F) as u8;
            let b0 = 0xE0u8 | ((t >> 12) & 0x0F) as u8;
            let a1 = 0x80u8 | ((s >> 6) & 0x3F) as u8;
            let b1 = 0x80u8 | ((t >> 6) & 0x3F) as u8;
            let a2 = 0x80u8 | (s & 0x3F) as u8;
            let b2 = 0x80u8 | (t & 0x3F) as u8;
            assert(a0 < b0 || (a0 == b0 && (a1 < b1 || (a1 == b1 && a2 < b2)))) by (bit_vector)
                requires
                    s < t,
                    t <= 0xFFFF,
                    a0 == 0xE0u8 | ((s >> 12) & 0x0F) as u8,
                    b0 == 0xE0u8 | ((t >> 12) & 0x0F) as u8,
                    a1 == 0x80u8 | ((s >> 6) & 0x3F) as u8,
                    b1 == 0x80u8 | ((t >> 6) & 0x3F) as u8,
                    a2 == 0x80u8 | (s & 0x3F) as u8,
                    b2 == 0x80u8 | (t & 0x3F) as u8,
            ;
            if a0 < b0 {
                lemma_bytes_before_at(a, b, 0);
            } else if a1 < b1 {
                lemma_bytes_before_at(a, b, 1);
            } else {
                lemma_bytes_before_at(a, b, 2);
            }
        } else {
            assert((0xE0u8 | ((s >> 12) & 0x0F) as u8) < 0xF0u8) by (bit_vector);
            assert((0xF0u8 | ((t >> 18) & 0x07) as u8) >= 0xF0u8) by (bit_vector);
            lemma_bytes_before_at(a, b, 0);
        }
    } else {
        let a0 = 0xF0u8 | ((s >> 18) & 0x07) as u8;
        let b0 = 0xF0u8 | ((t >> 18) & 0x07) as u8;
        let a1 = 0x80u8 | ((s >> 12) & 0x3F) as u8;
        let b1 = 0x80u8 | ((t >> 12) & 0x3F) as u8;
        let a2 = 0x80u8 | ((s >> 6) & 0x3F) as u8;
        let b2 = 0x80u8 | ((t >> 6) & 0x3F) as u8;
        let a3 = 0x80u8 | (s & 0x3F) as u8;
        let b3 = 0x80u8 | (t & 0x3F) as u8;
        assert(a0 < b0 || (a0 == b0 && (a1 < b1 || (a1 == b1 && (a2 < b2 || (a2 == b2 && a3
            < b3)))))) by (bit_vector)
            requires
                s < t,
                t <= 0x10FFFF,
                a0 == 0xF0u8 | ((s >> 18) & 0x07) as u8,
                b0 == 0xF0u8 | ((t >> 18) & 0x07) as u8,
                a1 == 0x80u8 | ((s >> 12) & 0x3F) as u8,
                b1 == 0x80u8 | ((t >> 12) & 0x3F) as u8,
                a2 == 0x80u8 | ((s >> 6) & 0x3F) as u8,
                b2 == 0x80u8 | ((t >> 6) & 0x3F) as u8,
                a3 == 0x80u8 | (s & 0x3F) as u8,
                b3 == 0x80u8 | (t & 0x3F) as u8,
        ;
        if a0 < b0 {
            lemma_bytes_before_at(a, b, 0);
        } else if a1 < b1 {
            lemma_bytes_before_at(a, b, 1);
        } else if a2 < b2 {
            lemma_bytes_before_at(a, b, 2);
        } else {
            lemma_bytes_before_at(a, b, 3);
        }
    }
}

/// The order of names is the alphabetical one, by code points. Where two names have the same first
/// `k` characters, the one that ends there comes before the one that goes on, and where both go on
/// with different characters, the one with the smaller code point there comes first.
pub proof fn law_name_order_is_alphabetical(a: Seq<char>, b: Seq<char>, k: int)
    requires
        0 <= k <= a.len(),
        k < b.len(),
        forall|i: int| 0 <= i < k ==> a[i] == b[i],
        k < a.len() ==> (a[k] as u32) < (b[k] as u32),
    ensures
        name_before(a, b),
        !name_before(b, a),
        a != b,
    decreases k,
{
    let x = vstd::utf8::encode_utf8(a);
    let y = vstd::utf8::encode_utf8(b);
    if k > 0 {
        let p = vstd::utf8::encode_scalar(a[0] as u32);
        law_name_order_is_alphabetical(a.drop_first(), b.drop_first(), k - 1);
        lemma_bytes_before_common(
            p,
            vstd::utf8::encode_utf8(a.drop_first()),
            vstd::utf8::encode_utf8(b.drop_first()),
        );
    } else if a.len() > 0 {
        lemma_scalar_before(
            a[0],
            b[0],
            vstd::utf8::encode_utf8(a.drop_first()),
            vstd::utf8::encode_utf8(b.drop_first()),
        );
    } else {
        assert(x.len() == 0);
        assert(y.len() > 0);
    }
    law_name_order(a, b, a);
}

/// Where two names differ: behind their longest common beginning.
proof fn lemma_first_difference(a: Seq<char>, b: Seq<char>) -> (k: int)
    requires
        a != b,
    ensures
        0 <= k <= a.len(),
        k <= b.len(),
        a.take(k) == b.take(k),
        k < a.len() || k < b.len(),
        k < a.len() && k < b.len() ==> a[k] != b[k],
    decreases a.len(),
{
    if a.len() == 0 || b.len() == 0 {
        assert(a.take(0) =~= b.take(0));
        if a.len() == 0 && b.len() == 0 {
            assert(a =~= b);
        }
        0
    } else if a[0] != b[0] {
        assert(a.take(0) =~= b.take(0));
        0
    } else {
        if a.drop_first() == b.drop_first() {
            assert(b =~= seq![b[0]] + b.drop_first());
            assert(a =~= seq![a[0]] + a.drop_first());
        }
        let k = lemma_first_difference(a.drop_first(), b.drop_first());
        assert forall|i: int| 0 <= i < k + 1 implies a[i] == b[i] by {
            if i > 0 {
                assert(a.drop_first().take(k)[i - 1] == b.drop_first().take(k)[i - 1]);
            }
        }
        assert(a.take(k + 1) =~= b.take(k + 1));
        k + 1
    }
}

/// A name comes before another one only by the alphabetical order.
proof fn lemma_before_differs(a: Seq<char>, b: Seq<char>) -> (k: int)
    requires
        name_before(a, b),
    ensures
        0 <= k <= a.len(),
        k < b.len(),
        a.take(k) == b.take(k),
        k < a.len() ==> (a[k] as u32) < (b[k] as u32),
{
    law_name_order(a, b, b);
    let k = lemma_first_difference(a, b);
    assert forall|i: int| 0 <= i < k implies a[i] == b[i] by {
        assert(a.take(k)[i] == b.take(k)[i]);
    }
    if k < a.len() && k < b.len() {
        vstd::utf8::char_u32_cast(a[k], a[k] as u32);
        vstd::utf8::char_u32_cast(b[k], b[k] as u32);
    }
    if k >= b.len() || (k < a.len() && (b[k] as u32) < (a[k] as u32)) {
        law_name_order_is_alphabetical(b, a, k);
    }
    k
}

/// Outputs are handed out alphabetically: the names of two of them have some first `k` characters
/// in common, and then the earlier name ends, or goes on with a character of a smaller code point
/// than the later one.
pub proof fn law_handed_out_alphabetically<P>(
    outputs: Outputs<P>,
    r: Vec<(String, P)>,
    i: int,
    j: int,
)
    requires
        call_ensures(Outputs::<P>::into_entries, (outputs,), r),
        0 <= i < j < r@.len(),
    ensures
        exists|k: int|
            0 <= k <= r@[i].0@.len() && k < r@[j].0@.len() && #[trigger] r@[i].0@.take(k)
                == r@[j].0@.take(k) && (k < r@[i].0@.len() ==> (r@[i].0@[k] as u32) < (
            r@[j].0@[k] as u32)),
{
    let entries = r@.map_values(|e: (String, P)| (e.0@, e.1));
    assert(entries == outputs@);
    assert(entries[i].0 == r@[i].0@);
    assert(entries[j].0 == r@[j].0@);
    let k = lemma_before_differs(r@[i].0@, r@[j].0@);
    assert(r@[i].0@.take(k) == r@[j].0@.take(k));
}

/// What is handed out is what stands under the names: each entry that is handed out is what
/// [`Outputs::get`] gives under its name, and what that gives is among the entries.
pub proof fn law_handed_out_is_what_stands<P>(
    outputs: Outputs<P>,
    r: Vec<(String, P)>,
    name: &str,
    path: Option<&P>,
)
    requires
        call_ensures(Outputs::<P>::into_entries, (outputs,), r),
        call_ensures(Outputs::<P>::get, (&outputs, name), path),
    ensures
        forall|i: int|
            0 <= i < r@.len() && (#[trigger] r@[i]).0@ == name@ ==> path == Some(&r@[i].1),
        path matches Some(p) ==> exists|i: int|
            0 <= i < r@.len() && (#[trigger] r@[i]).0@ == name@ && r@[i].1 == *p,
{
    let entries = r@.map_values(|e: (String, P)| (e.0@, e.1));
    assert(entries == outputs@);
    lemma_outputs_map(outputs@);
    assert forall|i: int| 0 <= i < r@.len() && (#[trigger] r@[i]).0@ == name@ implies path == Some(
        &r@[i].1,
    ) by {
        assert(entries[i] == (r@[i].0@, r@[i].1));
    }
    if path is Some {
        let i = choose|i: int| 0 <= i < entries.len() && (#[trigger] entries[i]).0 == name@;
        assert(entries[i] == (r@[i].0@, r@[i].1));
    }
}

/// No path stands under any name where there are no outputs.
pub proof fn law_no_outputs_at_first<P>(outputs: Outputs<P>, name: &str, path: Option<&P>)
    requires
        call_ensures(Outputs::<P>::new, (), outputs),
        call_ensures(Outputs::<P>::get, (&outputs, name), path),
    ensures
        path is None,
{
}

/// A path that was put under a name stands under that name, whatever stood there before, and
/// what stands under every other name stays as it was.
pub proof fn law_insert<P>(
    outputs: &mut Outputs<P>,
    name: String,
    path: P,
    asked: &str,
    before: Option<&P>,
    after: Option<&P>,
)
    requires
        call_ensures(Outputs::<P>::insert, (outputs, name, path), ()),
        call_ensures(Outputs::<P>::get, (&*old(outputs), asked), before),
        call_ensures(Outputs::<P>::get, (&*final(outputs), asked), after),
    ensures
        after == (if asked@ == name@ {
            Some(&path)
        } else {
            before
        }),
{
}

/// A path that is reported stands under the name that was reported with it, whatever stood there
/// before, and what stands under every other name stays as it was. The name is the text whose
/// UTF-8 bytes were reported, or else what [`String::from_utf8_lossy`] makes of the bytes.
pub proof fn law_report<P>(
    outputs: &mut Outputs<P>,
    name: &[u8],
    path: P,
    asked: &str,
    before: Option<&P>,
    after: Option<&P>,
)
    requires
        call_ensures(Outputs::<P>::report, (outputs, name, path), ()),
        call_ensures(Outputs::<P>::get, (&*old(outputs), asked), before),
        call_ensures(Outputs::<P>::get, (&*final(outputs), asked), after),
    ensures
        after == (if asked@ == utf8_lossy(name@) {
            Some(&path)
        } else {
            before
        }),
        vstd::utf8::encode_utf8(asked@) == name@ ==> after == Some(&path),
        vstd::utf8::valid_utf8(name@) && vstd::utf8::encode_utf8(asked@) != name@ ==> after
            == before,
{
    vstd::utf8::encode_utf8_valid_utf8(asked@);
    vstd::utf8::encode_utf8_decode_utf8(asked@);
    if vstd::utf8::valid_utf8(name@) {
        vstd::utf8::decode_utf8_encode_utf8(name@);
    }
}

} // verus!
