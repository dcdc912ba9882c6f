//! Which open stores may be shared.
//!
//! Nix misbehaves when one process opens the same store twice. So a store that is still in use
//! is handed out again to whoever asks for it by the same URL and the same parameters. The cache
//! holds only weak references, and does not keep a store open.
use vstd::prelude::*;
use crate::error::Error;
use crate::store::{Store, StoreWeak};

verus! {

/// A URL, if one was given, and the parameters in the order in which they were given.
pub type KeyModel = (Option<Seq<char>>, Seq<(Seq<char>, Seq<char>)>);

/// The parameters `params` as texts.
pub open spec fn params_model(params: Seq<(String, String)>) -> Seq<(Seq<char>, Seq<char>)> {
    params.map_values(|p: (String, String)| (p.0@, p.1@))
}

/// What a store is asked for by.
#[derive(Debug)]
pub struct StoreKey {
    url: Option<String>,
    params: Vec<(String, String)>,
}

impl View for StoreKey {
    type V = KeyModel;

    closed spec fn view(&self) -> KeyModel {
        (
            match self.url {
                Some(url) => Some(url@),
                None => None,
            },
            params_model(self.params@),
        )
    }
}

impl StoreKey {
    /// The key for `url` and `params`.
    pub fn new(url: Option<&str>, params: &[(&str, &str)]) -> (r: StoreKey)
        ensures
            r@.0 == (match url {
                Some(u) => Some(u@),
                None => None,
            }),
            r@.1 == params@.map_values(|p: (&str, &str)| (p.0@, p.1@)),
    {
        let url = match url {
            Some(u) => Some(u.to_owned()),
            None => None,
        };
        let mut owned: Vec<(String, String)> = Vec::new();
        let mut i: usize = 0;
        while i < params.len()
            invariant
                i <= params.len(),
                owned.len() == i,
                forall|j: int|
                    #![trigger owned@[j]]
                    0 <= j < i ==> owned@[j].0@ == params@[j].0@ && owned@[j].1@ == params@[j].1@,
            decreases params.len() - i,
        {
            owned.push((params[i].0.to_owned(), params[i].1.to_owned()));
            i = i + 1;
        }
        StoreKey { url, params: owned }
    }

    /// The URL, if one was given.
    pub fn url(&self) -> (r: Option<&str>)
        ensures
            self@.0 == (match r {
                Some(u) => Some(u@),
                None => None,
            }),
    {
        match &self.url {
            Some(u) => Some(u.as_str()),
            None => None,
        }
    }

    /// The parameters, in the order in which they were given.
    pub fn params(&self) -> (r: &[(String, String)])
        ensures
            self@.1 == params_model(r@),
    {
        self.params.as_slice()
    }

    /// A key for the same store.
    fn duplicate(&self) -> (r: StoreKey)
        ensures
            r@ == self@,
    {
        let url = match &self.url {
            Some(u) => Some(u.clone()),
            None => None,
        };
        let mut params: Vec<(String, String)> = Vec::new();
        let mut i: usize = 0;
        while i < self.params.len()
            invariant
                i <= self.params.len(),
                params@ == self.params@.take(i as int),
            decreases self.params.len() - i,
        {
            params.push((self.params[i].0.clone(), self.params[i].1.clone()));
            i = i + 1;
        }
        StoreKey { url, params }
    }

    /// Whether both keys ask for the same store: the same URL, or none, and the same parameters
    /// in the same order.
    pub fn same_as(&self, other: &StoreKey) -> (r: bool)
        ensures
            r == (self@ == other@),
    {
        let same_url = match (&self.url, &other.url) {
            (Some(a), Some(b)) => *a == *b,
            (None, None) => true,
            _ => false,
        };
        if !same_url || self.params.len() != other.params.len() {
            assert(self.params.len() != other.params.len() ==> self@.1.len() != other@.1.len());
            return false;
        }
        let mut i: usize = 0;
        while i < self.params.len()
            invariant
                i <= self.params.len(),
                self.params.len() == other.params.len(),
                forall|j: int| 0 <= j < i ==> #[trigger] self@.1[j] == other@.1[j],
            decreases self.params.len() - i,
        {
            let a = &self.params[i];
            let b = &other.params[i];
            if !(a.0 == b.0 && a.1 == b.1) {
                assert(self@.1[i as int] != other@.1[i as int]);
                return false;
            }
            i = i + 1;
        }
        assert(self@.1 =~= other@.1);
        true
    }
}

/// Weak references to the stores that were opened, each under its key.
#[verifier::reject_recursive_types(R)]
pub struct StoreCache<R> {
    entries: Vec<(StoreKey, StoreWeak<R>)>,
}

/// Whether entry `i` is the one for `key`.
spec fn entry_at<R>(entries: Seq<(StoreKey, StoreWeak<R>)>, i: int, key: KeyModel) -> bool {
    0 <= i < entries.len() && entries[i].0@ == key
}

/// No key occurs twice.
spec fn keys_unique<R>(entries: Seq<(StoreKey, StoreWeak<R>)>) -> bool {
    forall|i: int, j: int|
        0 <= i < entries.len() && 0 <= j < entries.len() && #[trigger] entries[i].0@
            == #[trigger] entries[j].0@ ==> i == j
}

/// Which store the entry under each key refers to.
spec fn entries_map<R>(entries: Seq<(StoreKey, StoreWeak<R>)>) -> Map<KeyModel, R> {
    Map::new(
        |k: KeyModel| exists|i: int| entry_at(entries, i, k),
        |k: KeyModel| entries[choose|i: int| entry_at(entries, i, k)].1.target(),
    )
}

impl<R> View for StoreCache<R> {
    type V = Map<KeyModel, R>;

    /// Which store the reference under each key refers to.
    closed spec fn view(&self) -> Map<KeyModel, R> {
        entries_map(self.entries@)
    }
}

impl<R> StoreCache<R> {
    /// No key occurs twice among the entries.
    pub closed spec fn wf(self) -> bool {
        keys_unique(self.entries@)
    }

    /// A cache without entries.
    pub fn new() -> (r: StoreCache<R>)
        ensures
            r.wf(),
            r@ == Map::<KeyModel, R>::empty(),
    {
        StoreCache { entries: Vec::new() }
    }

    /// The index of the entry for `key`.
    fn position(&self, key: &StoreKey) -> (r: Option<usize>)
        ensures
            match r {
                Some(i) => entry_at(self.entries@, i as int, key@),
                None => !self@.contains_key(key@),
            },
    {
        let mut i: usize = 0;
        while i < self.entries.len()
            invariant
                i <= self.entries.len(),
                forall|j: int| 0 <= j < i ==> !#[trigger] entry_at(self.entries@, j, key@),
            decreases self.entries.len() - i,
        {
            if self.entries[i].0.same_as(key) {
                return Some(i);
            }
            i = i + 1;
        }
        None
    }

    /// The weak reference that is cached for `key`.
    pub fn get(&self, key: &StoreKey) -> (r: Option<&StoreWeak<R>>)
        requires
            self.wf(),
        ensures
            match r {
                Some(weak) => self@.contains_key(key@) && weak.target() == self@[key@],
                None => !self@.contains_key(key@),
            },
    {
        match self.position(key) {
            Some(i) => Some(&self.entries[i].1),
            None => None,
        }
    }

    /// The store that is cached for `key`, if it is still in use.
    pub fn follow(&self, key: &StoreKey) -> (r: Option<Store<R>>)
        requires
            self.wf(),
        ensures
            may_find(self@, key@, seen(r)),
            self@.contains_key(key@) ==> exists|weak: StoreWeak<R>|
                weak.target() == self@[key@] && #[trigger] call_ensures(
                    StoreWeak::<R>::upgrade,
                    (&weak,),
                    r,
                ),
    {
        match self.get(key) {
            Some(weak) => weak.upgrade(),
            None => None,
        }
    }

    /// Caches `weak` for `key`, in place of what was cached for it.
    pub fn insert(&mut self, key: &StoreKey, weak: StoreWeak<R>)
        requires
            old(self).wf(),
        ensures
            final(self).wf(),
            final(self)@ == old(self)@.insert(key@, weak.target()),
    {
        let owned = key.duplicate();
        let ghost before = self.entries@;
        match self.position(key) {
            Some(i) => {
                self.entries.set(i, (owned, weak));
                proof {
                    lemma_entries_replaced(before, i as int, owned, weak);
                }
            },
            None => {
                self.entries.push((owned, weak));
                proof {
                    lemma_entries_pushed(before, owned, weak);
                }
            },
        }
    }
}

proof fn lemma_entries_replaced<R>(before: Seq<(StoreKey, StoreWeak<R>)>, i: int, key: StoreKey, weak: StoreWeak<R>)
    requires
        keys_unique(before),
        entry_at(before, i, key@),
    ensures
        keys_unique(before.update(i, (key, weak))),
        entries_map(before.update(i, (key, weak))) == entries_map(before).insert(key@, weak.target()),
{
    let after = before.update(i, (key, weak));
    assert forall|k: KeyModel| entries_map(after).contains_key(k) <==> #[trigger] entries_map(
        before,
    ).insert(key@, weak.target()).contains_key(k) by {
        if entries_map(after).contains_key(k) {
            let j = choose|j: int| entry_at(after, j, k);
            assert(entry_at(before, j, k));
        }
        if entries_map(before).contains_key(k) {
            let j = choose|j: int| entry_at(before, j, k);
            assert(entry_at(after, j, k));
        }
    }
}

proof fn lemma_entries_pushed<R>(before: Seq<(StoreKey, StoreWeak<R>)>, key: StoreKey, weak: StoreWeak<R>)
    requires
        keys_unique(before),
        !entries_map(before).contains_key(key@),
    ensures
        keys_unique(before.push((key, weak))),
        entries_map(before.push((key, weak))) == entries_map(before).insert(key@, weak.target()),
{
    let after = before.push((key, weak));
    let n = before.len() as int;
    assert forall|j: int| 0 <= j < n implies #[trigger] before[j].0@ != key@ by {
        if before[j].0@ == key@ {
            assert(entry_at(before, j, key@));
        }
    }
    assert forall|k: KeyModel| entries_map(after).contains_key(k) <==> #[trigger] entries_map(
        before,
    ).insert(key@, weak.target()).contains_key(k) by {
        if entries_map(after).contains_key(k) {
            let j = choose|j: int| entry_at(after, j, k);
            if j < n {
                assert(entry_at(before, j, k));
            }
        }
        if entries_map(before).contains_key(k) {
            let j = choose|j: int| entry_at(before, j, k);
            assert(entry_at(after, j, k));
        }
        assert(entry_at(after, n, key@));
    }
    assert forall|k: KeyModel| #[trigger] entries_map(after).contains_key(k) implies entries_map(
        after,
    )[k] == entries_map(before).insert(key@, weak.target())[k] by {
        if k != key@ {
            assert(entry_at(before, choose|j: int| entry_at(after, j, k), k));
        }
    }
}

/// What happened while a store was being opened. `S` is a store.
#[derive(Debug)]
pub enum OpenEvent<S> {
    /// A store was asked for.
    Asked,
    /// The C API was asked for a store.
    Opened(Result<S, Error>),
}

/// What to do next to open a store. `S` is a store.
#[derive(Debug)]
pub enum OpenAction<S> {
    /// Ask the C API for the store.
    OpenUncached,
    /// Return this.
    Return(Result<S, Error>),
}

impl<R> OpenEvent<Store<R>> {
    /// The event, with the store as what the C API gave for it.
    pub open spec fn model(self) -> OpenEvent<R> {
        match self {
            OpenEvent::Asked => OpenEvent::Asked,
            OpenEvent::Opened(Ok(store)) => OpenEvent::Opened(Ok(store@)),
            OpenEvent::Opened(Err(e)) => OpenEvent::Opened(Err(e)),
        }
    }
}

impl<R> OpenAction<Store<R>> {
    /// The action, with the store as what the C API gave for it.
    pub open spec fn model(self) -> OpenAction<R> {
        match self {
            OpenAction::OpenUncached => OpenAction::OpenUncached,
            OpenAction::Return(Ok(store)) => OpenAction::Return(Ok(store@)),
            OpenAction::Return(Err(e)) => OpenAction::Return(Err(e)),
        }
    }
}

/// A store that was found, as what the C API gave for it.
pub open spec fn seen<R>(found: Option<Store<R>>) -> Option<R> {
    match found {
        Some(store) => Some(store@),
        None => None,
    }
}

/// Whether `found` can come of following what `cache` holds under `key`: the store that is cached
/// there, or nothing.
pub open spec fn may_find<R>(cache: Map<KeyModel, R>, key: KeyModel, found: Option<R>) -> bool {
    found matches Some(store) ==> cache.contains_key(key) && cache[key] == store
}

/// The cache after `event`, and what to do next, for one who asks for the store `key`. `found` is
/// what came of following the cached reference.
pub open spec fn open_transition<R>(
    cache: Map<KeyModel, R>,
    key: KeyModel,
    found: Option<R>,
    event: OpenEvent<R>,
) -> (Map<KeyModel, R>, OpenAction<R>) {
    match event {
        OpenEvent::Asked => match found {
            Some(store) => (cache, OpenAction::Return(Ok(store))),
            None => (cache, OpenAction::OpenUncached),
        },
        OpenEvent::Opened(Ok(store)) => (cache.insert(key, store), OpenAction::Return(Ok(store))),
        OpenEvent::Opened(Err(e)) => (cache, OpenAction::Return(Err(e))),
    }
}

/// Whether one who asks for the store `key` may see `cache` become `after`, and `action` come next,
/// whatever comes of following the cached reference. Asking gives the store that is cached under
/// the key, or else the C API has to be asked for one. A store that the C API gave is returned and
/// cached. An error is returned and leaves the cache as it was.
pub open spec fn open_allows<R>(
    cache: Map<KeyModel, R>,
    key: KeyModel,
    event: OpenEvent<R>,
    after: Map<KeyModel, R>,
    action: OpenAction<R>,
) -> bool {
    match event {
        OpenEvent::Asked => {
            &&& after == cache
            &&& action is OpenUncached || (cache.contains_key(key) && action == OpenAction::Return(
                Ok(cache[key]),
            ))
        },
        OpenEvent::Opened(opened) => {
            &&& after == match opened {
                Ok(store) => cache.insert(key, store),
                Err(_) => cache,
            }
            &&& action == OpenAction::Return(opened)
        },
    }
}

/// Whether following what `cache` holds under `key` gave `found`, and asking for that store left
/// `after` and called for `action`.
pub open spec fn open_of_found<R>(
    cache: StoreCache<R>,
    key: StoreKey,
    found: Option<Store<R>>,
    after: Map<KeyModel, R>,
    action: OpenAction<Store<R>>,
) -> bool {
    &&& call_ensures(StoreCache::<R>::follow, (&cache, &key), found)
    &&& (after, action.model()) == open_transition(cache@, key@, seen(found), OpenEvent::Asked)
}

/// What may come of a step is exactly what comes of it for something that following the cached
/// reference may find.
pub proof fn law_open_step<R>(
    cache: Map<KeyModel, R>,
    key: KeyModel,
    event: OpenEvent<R>,
    after: Map<KeyModel, R>,
    action: OpenAction<R>,
)
    ensures
        open_allows(cache, key, event, after, action) <==> exists|found: Option<R>| #[trigger]
            may_find(cache, key, found) && (after, action) == open_transition(
                cache,
                key,
                found,
                event,
            ),
{
    assert(may_find(cache, key, None::<R>));
    if cache.contains_key(key) {
        assert(may_find(cache, key, Some(cache[key])));
    }
}

/// All that is done for one who asks for the store `key`, and the cache after it, if following
/// the cached reference gives `found` and asking the C API gives `opened`.
pub open spec fn open_run<R>(
    cache: Map<KeyModel, R>,
    key: KeyModel,
    found: Option<R>,
    opened: Result<R, Error>,
) -> (Map<KeyModel, R>, Seq<OpenAction<R>>) {
    let (cache1, action1) = open_transition(cache, key, found, OpenEvent::Asked);
    match action1 {
        OpenAction::OpenUncached => {
            let (cache2, action2) = open_transition(cache1, key, None, OpenEvent::Opened(opened));
            (cache2, seq![action1, action2])
        },
        _ => (cache1, seq![action1]),
    }
}

/// Opening a store takes at most one call, and then returns. A store that is cached and still in
/// use is returned, and the C API is not asked. Otherwise what the C API gives is returned. A store
/// that it gives is cached. An error leaves the cache as it was.
pub proof fn law_open<R>(
    cache: Map<KeyModel, R>,
    key: KeyModel,
    found: Option<R>,
    opened: Result<R, Error>,
)
    requires
        may_find(cache, key, found),
    ensures
        open_run(cache, key, found, opened) == match found {
            Some(_) => (cache, seq![OpenAction::Return(Ok::<R, Error>(cache[key]))]),
            None => (
                match opened {
                    Ok(store) => cache.insert(key, store),
                    Err(_) => cache,
                },
                seq![OpenAction::OpenUncached, OpenAction::Return(opened)],
            ),
        },
{
}

/// Opening one store leaves what is cached for every other key as it was.
pub proof fn law_open_keeps_other_keys<R>(
    cache: Map<KeyModel, R>,
    key: KeyModel,
    event: OpenEvent<R>,
    after: Map<KeyModel, R>,
    action: OpenAction<R>,
    other: KeyModel,
)
    requires
        open_allows(cache, key, event, after, action),
        other != key,
    ensures
        after.contains_key(other) == cache.contains_key(other),
        cache.contains_key(other) ==> after[other] == cache[other],
{
}

/// One step of opening a store: the key, what happened, the action that came of it, and the cache
/// after it.
pub struct OpenStep<R> {
    /// What the store was asked for by.
    pub key: KeyModel,
    /// What happened.
    pub event: OpenEvent<R>,
    /// What was to be done next.
    pub action: OpenAction<R>,
    /// The cache after the step.
    pub after: Map<KeyModel, R>,
}

/// The cache before step `i` of `steps`, which begin with `cache`.
pub open spec fn cache_before<R>(
    cache: Map<KeyModel, R>,
    steps: Seq<OpenStep<R>>,
    i: int,
) -> Map<KeyModel, R> {
    if i == 0 {
        cache
    } else {
        steps[i - 1].after
    }
}

/// Whether `steps` can follow each other on a cache that holds `cache` at first, whoever takes
/// them and whichever stores they are about.
pub open spec fn open_history<R>(cache: Map<KeyModel, R>, steps: Seq<OpenStep<R>>) -> bool {
    forall|i: int|
        0 <= i < steps.len() ==> {
            let step = #[trigger] steps[i];
            open_allows(
                cache_before(cache, steps, i),
                step.key,
                step.event,
                step.after,
                step.action,
            )
        }
}

/// Whether step `step` is the opening of a store under `key`.
pub open spec fn opens<R>(step: OpenStep<R>, key: KeyModel) -> bool {
    step.key == key && step.event is Opened && step.event->0 is Ok
}

/// The cache holds under each key the store that was opened last under it, whatever was done
/// since.
pub proof fn law_cache_holds_last_opened<R>(
    cache: Map<KeyModel, R>,
    steps: Seq<OpenStep<R>>,
    i: int,
    j: int,
)
    requires
        open_history(cache, steps),
        0 <= i < j <= steps.len(),
        opens(steps[i], steps[i].key),
        forall|k: int| i < k < j ==> !opens(#[trigger] steps[k], steps[i].key),
    ensures
        cache_before(cache, steps, j).contains_key(steps[i].key),
        Ok::<R, Error>(cache_before(cache, steps, j)[steps[i].key]) == steps[i].event->0,
    decreases j - i,
{
    let step = steps[j - 1];
    assert(open_allows(
        cache_before(cache, steps, j - 1),
        step.key,
        step.event,
        step.after,
        step.action,
    ));
    if j - 1 > i {
        law_cache_holds_last_opened(cache, steps, i, j - 1);
    }
}

/// A store that was opened is shared: whoever asks later for the same URL with the same parameters
/// gets that very store, unless the C API has to be asked for one. The C API has to be asked only
/// if following the cached reference gave nothing.
pub proof fn law_open_store_is_shared<R>(
    cache: Map<KeyModel, R>,
    steps: Seq<OpenStep<R>>,
    i: int,
    j: int,
)
    requires
        open_history(cache, steps),
        0 <= i < j < steps.len(),
        opens(steps[i], steps[i].key),
        forall|k: int| i < k < j ==> !opens(#[trigger] steps[k], steps[i].key),
        steps[j].key == steps[i].key,
        steps[j].event is Asked,
    ensures
        steps[j].action == OpenAction::Return(steps[i].event->0) || steps[j].action is OpenUncached,
        forall|found: Option<R>| #[trigger]
            may_find(cache_before(cache, steps, j), steps[j].key, found) && found is Some
                ==> open_transition(
                cache_before(cache, steps, j),
                steps[j].key,
                found,
                OpenEvent::Asked,
            ).1 == OpenAction::Return(steps[i].event->0),
{
    law_cache_holds_last_opened(cache, steps, i, j);
    let step = steps[j];
    assert(open_allows(
        cache_before(cache, steps, j),
        step.key,
        step.event,
        step.after,
        step.action,
    ));
}

/// While following the cached reference gives a store, [`Store::open`] returns the store that was
/// opened last under the key, and does not have the C API asked. Where it gives nothing, the C API
/// is asked.
pub proof fn law_live_store_is_returned<R>(
    start: Map<KeyModel, R>,
    steps: Seq<OpenStep<R>>,
    i: int,
    cache: StoreCache<R>,
    key: StoreKey,
    found: Option<Store<R>>,
    after: Map<KeyModel, R>,
    action: OpenAction<Store<R>>,
)
    requires
        open_history(start, steps),
        0 <= i < steps.len(),
        opens(steps[i], key@),
        forall|k: int| i < k < steps.len() ==> !opens(#[trigger] steps[k], key@),
        cache@ == cache_before(start, steps, steps.len() as int),
        open_of_found(cache, key, found, after, action),
    ensures
        after == cache@,
        found is Some ==> action.model() == OpenAction::Return(steps[i].event->0),
        found is None ==> action is OpenUncached,
{
    law_cache_holds_last_opened(start, steps, i, steps.len() as int);
}

/// Other parameters get a store of their own: what is cached under a key was opened under that key.
pub proof fn law_cached_store_was_opened_under_its_key<R>(
    steps: Seq<OpenStep<R>>,
    j: int,
    key: KeyModel,
)
    requires
        open_history(Map::empty(), steps),
        0 <= j <= steps.len(),
        cache_before(Map::empty(), steps, j).contains_key(key),
    ensures
        exists|i: int|
            0 <= i < j && opens(#[trigger] steps[i], key) && steps[i].event->0 == Ok::<R, Error>(
                cache_before(Map::empty(), steps, j)[key],
            ),
    decreases j,
{
    if j > 0 {
        let step = steps[j - 1];
        assert(open_allows(
            cache_before(Map::empty(), steps, j - 1),
            step.key,
            step.event,
            step.after,
            step.action,
        ));
        if !opens(step, key) {
            law_cached_store_was_opened_under_its_key(steps, j - 1, key);
        }
    }
}

/// A store that is no longer in use is not handed out again: the C API is asked, what it gives is
/// returned, and a store that it gives is the one that is shared from then on.
pub proof fn law_reopened_store_is_shared<R>(
    cache: Map<KeyModel, R>,
    key: KeyModel,
    store: R,
    found_later: Option<R>,
    opened_later: Result<R, Error>,
)
    requires
        may_find(open_run(cache, key, None, Ok(store)).0, key, found_later),
    ensures
        ({
            let (after, actions) = open_run(cache, key, None, Ok(store));
            &&& actions == seq![OpenAction::OpenUncached, OpenAction::Return(Ok(store))]
            &&& found_later is Some ==> open_run(after, key, found_later, opened_later) == (
                after,
                seq![OpenAction::Return(Ok(store))],
            )
        }),
{
    law_open(cache, key, None, Ok(store));
    law_open(open_run(cache, key, None, Ok(store)).0, key, found_later, opened_later);
}

} // verus!
