//! Strings and arrays in the form in which C functions take them.
use vstd::prelude::*;

verus! {

/// Why a text cannot be handed to C: it holds a NUL byte.
#[derive(Clone, Copy, Debug, PartialEq, Eq, Structural)]
pub struct NulError {
    /// Index of the first NUL among the UTF-8 bytes of the text.
    pub position: usize,
}

/// Where the first NUL byte of `text` stands, if it has one.
pub open spec fn first_nul(text: Seq<char>) -> Option<int> {
    vstd::utf8::encode_utf8(text).index_of_first(0u8)
}

/// `text` as C sees it: its UTF-8 bytes and a terminating NUL.
pub open spec fn c_bytes(text: Seq<char>) -> Seq<u8> {
    vstd::utf8::encode_utf8(text).push(0u8)
}

/// The bytes that a C function finds at the start of `memory`: everything before the first NUL.
pub open spec fn c_read(memory: Seq<u8>) -> Seq<u8>
    recommends
        memory.contains(0u8),
{
    memory.take(memory.index_of_first(0u8)->0)
}

/// An owned C string: bytes of which the last is NUL, and no other.
#[derive(Debug)]
pub struct CText {
    bytes: Vec<u8>,
}

impl View for CText {
    type V = Seq<u8>;

    closed spec fn view(&self) -> Seq<u8> {
        self.bytes@
    }
}

impl CText {
    /// The C string of `text`, or the position of the NUL that makes it impossible.
    pub fn new(text: &str) -> (r: Result<CText, NulError>)
        ensures
            match first_nul(text@) {
                None => r matches Ok(c) && c@ == c_bytes(text@),
                Some(p) => r matches Err(e) && e.position == p,
            },
    {
        let given = text.as_bytes();
        let mut bytes: Vec<u8> = Vec::new();
        let mut i: usize = 0;
        proof {
            vstd::utf8::encode_utf8(text@).index_of_first_ensures(0u8);
        }
        while i < given.len()
            invariant
                i <= given.len(),
                given@ == vstd::utf8::encode_utf8(text@),
                bytes@ == given@.take(i as int),
                forall|j: int| 0 <= j < i ==> given@[j] != 0,
                match first_nul(text@) {
                    Some(p) => i <= p < given.len() && given@[p] == 0
                        && forall|j: int| 0 <= j < p ==> given@[j] != 0,
                    None => !given@.contains(0u8),
                },
            decreases given.len() - i,
        {
            if given[i] == 0 {
                return Err(NulError { position: i });
            }
            bytes.push(given[i]);
            i = i + 1;
        }
        bytes.push(0);
        Ok(CText { bytes })
    }

    /// The bytes, the terminating NUL included.
    pub fn as_bytes_with_nul(&self) -> (r: &[u8])
        ensures
            r@ == self@,
    {
        self.bytes.as_slice()
    }
}

/// The items of an array whose end C finds by a null pointer.
pub open spec fn null_terminated_seq<T>(items: Seq<T>) -> Seq<Option<T>> {
    items.map_values(|item: T| Some(item)).push(None)
}

/// What C reads from an array that a null pointer ends.
pub open spec fn read_to_null<T>(array: Seq<Option<T>>) -> Seq<T>
    decreases array.len(),
{
    if array.len() == 0 || array[0] is None {
        Seq::empty()
    } else {
        seq![array[0]->0] + read_to_null(array.skip(1))
    }
}

/// `items` followed by the null that signals the end of the array.
pub fn null_terminated<T: Copy>(items: &[T]) -> (r: Vec<Option<T>>)
    ensures
        r@ == null_terminated_seq(items@),
{
    let mut array: Vec<Option<T>> = Vec::new();
    let mut i: usize = 0;
    while i < items.len()
        invariant
            i <= items.len(),
            array@ == items@.take(i as int).map_values(|item: T| Some(item)),
        decreases items.len() - i,
    {
        array.push(Some(items[i]));
        i = i + 1;
    }
    array.push(None);
    array
}

/// C reads back from a null-terminated array exactly the items that were put in.
pub proof fn law_null_terminated_reads_back<T>(items: Seq<T>)
    ensures
        read_to_null(null_terminated_seq(items)) == items,
    decreases items.len(),
{
    let array = null_terminated_seq(items);
    if items.len() > 0 {
        law_null_terminated_reads_back(items.skip(1));
        assert(array.skip(1) =~= null_terminated_seq(items.skip(1)));
    }
}

/// A text without NUL survives the trip through C: C reads its UTF-8 bytes, and they decode
/// to the text.
pub proof fn law_c_text_reads_back(text: Seq<char>)
    requires
        first_nul(text) is None,
    ensures
        c_read(c_bytes(text)) == vstd::utf8::encode_utf8(text),
        vstd::utf8::decode_utf8(c_read(c_bytes(text))) == text,
{
    let utf8 = vstd::utf8::encode_utf8(text);
    let memory = c_bytes(text);
    utf8.index_of_first_ensures(0u8);
    memory.index_of_first_ensures(0u8);
    assert(memory[utf8.len() as int] == 0);
    vstd::utf8::encode_utf8_decode_utf8(text);
}

/// The only character that keeps a text from being a C string is the NUL character.
pub proof fn law_nul_byte_is_nul_char(text: Seq<char>)
    ensures
        first_nul(text) is Some <==> text.contains('\0'),
    decreases text.len(),
{
    vstd::utf8::encode_utf8(text).index_of_first_ensures(0u8);
    if text.len() > 0 {
        let head = vstd::utf8::encode_scalar(text[0] as u32);
        let rest = text.drop_first();
        law_nul_byte_is_nul_char(rest);
        vstd::utf8::encode_utf8(rest).index_of_first_ensures(0u8);
        lemma_encode_scalar_nul(text[0]);
        lemma_concat_contains(head, vstd::utf8::encode_utf8(rest), 0u8);
        assert(text =~= seq![text[0]] + rest);
        lemma_concat_contains(seq![text[0]], rest, '\0');
    }
}

proof fn lemma_concat_contains<A>(a: Seq<A>, b: Seq<A>, x: A)
    ensures
        (a + b).contains(x) <==> a.contains(x) || b.contains(x),
{
    if a.contains(x) {
        let i = choose|i: int| 0 <= i < a.len() && a[i] == x;
        assert((a + b)[i] == x);
    }
    if b.contains(x) {
        let i = choose|i: int| 0 <= i < b.len() && b[i] == x;
        assert((a + b)[a.len() + i] == x);
    }
}

/// The UTF-8 bytes of one character hold a NUL only if it is the NUL character.
proof fn lemma_encode_scalar_nul(c: char)
    ensures
        vstd::utf8::encode_scalar(c as u32).contains(0u8) <==> c == '\0',
{
    let s = c as u32;
    let bytes = vstd::utf8::encode_scalar(s);
    if s <= 0x7F {
        assert((s & 0x7F) as u8 == 0u8 <==> s == 0) by (bit_vector)
            requires
                s <= 0x7F,
        ;
        assert(bytes[0] == (s & 0x7F) as u8);
    } else {
        assert(0xC0 | ((s >> 6) & 0x1F) as u8 != 0u8) by (bit_vector);
        assert(0xE0 | ((s >> 12) & 0x0F) as u8 != 0u8) by (bit_vector);
        assert(0xF0 | ((s >> 18) & 0x7) as u8 != 0u8) by (bit_vector);
        assert(0x80 | (s & 0x3F) as u8 != 0u8) by (bit_vector);
        assert(0x80 | ((s >> 6) & 0x3F) as u8 != 0u8) by (bit_vector);
        assert(0x80 | ((s >> 12) & 0x3F) as u8 != 0u8) by (bit_vector);
    }
}

/// What C reads from memory that holds a NUL is all that stands before the first NUL.
pub proof fn law_c_read_stops_at_first_nul(memory: Seq<u8>)
    requires
        memory.contains(0u8),
    ensures
        c_read(memory).len() < memory.len(),
        memory[c_read(memory).len() as int] == 0,
        forall|i: int|
            0 <= i < c_read(memory).len() ==> #[trigger] c_read(memory)[i] == memory[i]
                && memory[i] != 0,
{
    memory.index_of_first_ensures(0u8);
}

/// What C reads from an array that holds a null is all that stands before the first null.
pub proof fn law_read_to_null_stops_at_first_null<T>(array: Seq<Option<T>>, n: int)
    requires
        0 <= n < array.len(),
        array[n] is None,
        forall|i: int| 0 <= i < n ==> #[trigger] array[i] is Some,
    ensures
        read_to_null(array).len() == n,
        forall|i: int| 0 <= i < n ==> Some(#[trigger] read_to_null(array)[i]) == array[i],
    decreases n,
{
    if n > 0 {
        let rest = array.skip(1);
        law_read_to_null_stops_at_first_null(rest, n - 1);
        assert forall|i: int| 0 <= i < n implies Some(#[trigger] read_to_null(array)[i])
            == array[i] by {
            if i > 0 {
                assert(read_to_null(array)[i] == read_to_null(rest)[i - 1]);
                assert(rest[i - 1] == array[i]);
            }
        }
    }
}

/// A text becomes a C string exactly if it holds no NUL character. The C string is all of its
/// UTF-8 bytes and a NUL, and what C reads of it decodes to the text. Otherwise the error tells
/// where the first NUL byte stands.
pub proof fn law_c_string(text: &str, r: Result<CText, NulError>, bytes: &[u8])
    requires
        call_ensures(CText::new, (text,), r),
        r matches Ok(c) ==> call_ensures(CText::as_bytes_with_nul, (&c,), bytes),
    ensures
        r is Ok <==> !text@.contains('\0'),
        r matches Ok(c) ==> c@ == bytes@,
        r is Ok ==> bytes@ == vstd::utf8::encode_utf8(text@).push(0u8),
        r is Ok ==> vstd::utf8::decode_utf8(c_read(bytes@)) == text@,
        r matches Err(e) ==> {
            let utf8 = vstd::utf8::encode_utf8(text@);
            &&& e.position < utf8.len()
            &&& utf8[e.position as int] == 0
            &&& forall|i: int| 0 <= i < e.position ==> utf8[i] != 0
        },
{
    law_nul_byte_is_nul_char(text@);
    vstd::utf8::encode_utf8(text@).index_of_first_ensures(0u8);
    if r is Ok {
        law_c_text_reads_back(text@);
    }
}

/// An array for C holds the items that it was made of, each in its place, and one null behind
/// them.
pub proof fn law_null_terminated<T: Copy>(items: &[T], array: Vec<Option<T>>)
    requires
        call_ensures(null_terminated::<T>, (items,), array),
    ensures
        array@.len() == items@.len() + 1,
        forall|i: int| 0 <= i < items@.len() ==> #[trigger] array@[i] == Some(items@[i]),
        array@[items@.len() as int] is None,
{
}

} // verus!
