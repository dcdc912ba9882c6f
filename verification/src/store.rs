//! The operations on a store, each up to the call into the C API and from its reply on.
//!
//! A reply that is a nullable pointer is an `Option`. A call that the C API ended with an error
//! is an `Err` with the message that it left.
use vstd::prelude::*;
use std::sync::{Arc, Weak};
use crate::cache::{OpenAction, OpenEvent, StoreCache, StoreKey};
use crate::ctext::CText;
use crate::error::Error;
use crate::outputs::Outputs;

verus! {

/// An open store. `R` owns what the C API gave for it, and every clone of the store shares it.
#[derive(Debug)]
pub struct Store<R> {
    inner: Arc<R>,
}

impl<R> View for Store<R> {
    type V = R;

    closed spec fn view(&self) -> R {
        *self.inner
    }
}

/// Holds a `std::sync::Weak`. Verus sees nothing of it.
#[verifier::external_body]
#[verifier::reject_recursive_types(R)]
struct RawWeak<R> {
    inner: Weak<R>,
}

/// A weak reference to a store: it does not keep the store open.
#[verifier::reject_recursive_types(R)]
pub struct StoreWeak<R> {
    raw: RawWeak<R>,
}

impl<R> StoreWeak<R> {
    /// The store that this refers to, in use or not.
    ///
    /// It is determined by the `std::sync::Weak` that this holds. Verus sees nothing of that, so
    /// it is what stands to it in a relation that vstd leaves open. Only
    /// [`StoreWeak::downgrade`] says which store that is.
    pub closed spec fn target(self) -> R {
        choose|r: R| #[trigger]
            vstd::std_specs::control_flow::spec_from::<R, RawWeak<R>>(self.raw, r)
    }

    /// Wraps `Arc::downgrade` of std: the weak reference is to what `inner` shares.
    #[verifier::external_body]
    fn downgrade(inner: &Arc<R>) -> (r: StoreWeak<R>)
        ensures
            r.target() == **inner,
    {
        StoreWeak { raw: RawWeak { inner: Arc::downgrade(inner) } }
    }

    /// Wraps `Weak::upgrade` of std: where it gives a shared reference, that is to what the weak
    /// one was made from. Whether it gives one depends on who else still holds one, of which
    /// nothing is said.
    #[verifier::external_body]
    fn follow(&self) -> (r: Option<Arc<R>>)
        ensures
            r matches Some(inner) ==> *inner == self.target(),
    {
        self.raw.inner.upgrade()
    }

    /// Whether following this gave a shared reference exactly if `r` is a store.
    pub closed spec fn gave(self, r: Option<Store<R>>) -> bool {
        exists|found: Option<Arc<R>>| #[trigger]
            call_ensures(StoreWeak::<R>::follow, (&self,), found) && (found is Some <==> r is Some)
    }

    /// The store, if it is still in use.
    pub fn upgrade(&self) -> (r: Option<Store<R>>)
        ensures
            r matches Some(store) ==> store@ == self.target(),
            self.gave(r),
    {
        Store::from_shared(self.follow())
    }
}

/// The arguments with which the C API is asked for a store.
#[derive(Debug)]
pub struct OpenCall {
    /// The URL, or null where none was given.
    pub uri: Option<CText>,
    /// The parameters, each a name and a value, and the null that ends the array.
    pub params: Vec<Option<(CText, CText)>>,
}

/// The bytes of an entry in the array of parameters, where it is not null.
pub open spec fn param_bytes(param: Option<(CText, CText)>) -> Option<(Seq<u8>, Seq<u8>)> {
    match param {
        Some(p) => Some((p.0@, p.1@)),
        None => None,
    }
}

impl OpenCall {
    /// The bytes that the C API gets to see.
    pub open spec fn bytes(self) -> (Option<Seq<u8>>, Seq<Option<(Seq<u8>, Seq<u8>)>>) {
        (
            match self.uri {
                Some(uri) => Some(uri@),
                None => None,
            },
            self.params@.map_values(|p: Option<(CText, CText)>| param_bytes(p)),
        )
    }
}

/// A call into the C API on the store `store`.
#[derive(Debug)]
pub struct StoreCall<'a, R, A> {
    /// The store on which the call is made.
    pub store: &'a R,
    /// The arguments behind the store.
    pub args: A,
}

impl<'a, R, A> StoreCall<'a, R, A> {
    /// Whether this is the call on `store` with `args`.
    pub open spec fn is_on(self, store: R, args: A) -> bool {
        *self.store == store && self.args == args
    }
}

/// The arguments of a call for a closure, in the order in which the C API takes them.
#[derive(Debug)]
pub struct FsClosureArgs<P> {
    /// The path to start from.
    pub store_path: P,
    /// Whether to go from a path to those that refer to it.
    pub flip_direction: bool,
    /// Whether to go from derivations to their outputs, or back where the direction is flipped.
    pub include_outputs: bool,
    /// Whether to go from outputs to their derivations, or back where the direction is flipped.
    pub include_derivers: bool,
}

/// The parameters `params` as C strings.
pub open spec fn params_bytes(params: Seq<(Seq<char>, Seq<char>)>) -> Seq<(Seq<u8>, Seq<u8>)> {
    params.map_values(
        |p: (Seq<char>, Seq<char>)| (crate::ctext::c_bytes(p.0), crate::ctext::c_bytes(p.1)),
    )
}

/// The bytes with which the C API is to be asked for the store `key`: the URL, and an array of the
/// parameters that a null ends.
pub open spec fn open_call_bytes(key: crate::cache::KeyModel) -> (
    Option<Seq<u8>>,
    Seq<Option<(Seq<u8>, Seq<u8>)>>,
) {
    (
        match key.0 {
            Some(url) => Some(crate::ctext::c_bytes(url)),
            None => None,
        },
        crate::ctext::null_terminated_seq(params_bytes(key.1)),
    )
}

/// The names and values of `params`, one after the other.
pub open spec fn param_texts(params: Seq<(Seq<char>, Seq<char>)>) -> Seq<Seq<char>>
    decreases params.len(),
{
    if params.len() == 0 {
        Seq::empty()
    } else {
        seq![params[0].0, params[0].1] + param_texts(params.skip(1))
    }
}

/// The texts that have to become C strings to open the store `key`, in the order in which they do.
pub open spec fn open_texts(key: crate::cache::KeyModel) -> Seq<Seq<char>> {
    match key.0 {
        Some(url) => seq![url] + param_texts(key.1),
        None => param_texts(key.1),
    }
}

/// The position of the first NUL in the first of `texts` that has one.
pub open spec fn first_nul_among(texts: Seq<Seq<char>>) -> Option<int>
    decreases texts.len(),
{
    if texts.len() == 0 {
        None
    } else if crate::ctext::first_nul(texts[0]) is Some {
        crate::ctext::first_nul(texts[0])
    } else {
        first_nul_among(texts.skip(1))
    }
}

/// What a text argument comes to: a C string, or the error on its first NUL.
spec fn is_c_argument(text: Seq<char>, r: Result<CText, Error>) -> bool {
    match crate::ctext::first_nul(text) {
        None => r matches Ok(c) && c@ == crate::ctext::c_bytes(text),
        Some(p) => r matches Err(Error::Nul(e)) && e.position == p,
    }
}

/// What a call on `store` with `text` comes to before it is made.
pub open spec fn is_text_call<R>(
    store: R,
    text: Seq<char>,
    r: Result<StoreCall<'_, R, CText>, Error>,
) -> bool {
    match crate::ctext::first_nul(text) {
        None => r matches Ok(call) && *call.store == store && call.args@ == crate::ctext::c_bytes(
            text,
        ),
        Some(p) => r matches Err(Error::Nul(e)) && e.position == p,
    }
}

/// `text` as an argument of a C function.
fn c_argument(text: &str) -> (r: Result<CText, Error>)
    ensures
        is_c_argument(text@, r),
{
    match CText::new(text) {
        Ok(c) => Ok(c),
        Err(e) => Err(Error::Nul(e)),
    }
}

/// What a call that gives a value comes to.
pub open spec fn reply<T>(outcome: Result<T, String>) -> Result<T, Error> {
    match outcome {
        Ok(value) => Ok(value),
        Err(message) => Err(Error::Nix(message)),
    }
}

/// What a call that gives a nullable pointer comes to, where null without a message is the error
/// `null`.
pub open spec fn nullable_reply<T>(outcome: Result<Option<T>, String>, null: Error) -> Result<
    T,
    Error,
> {
    match outcome {
        Ok(Some(value)) => Ok(value),
        Ok(None) => Err(null),
        Err(message) => Err(Error::Nix(message)),
    }
}

/// What a call comes to that reported `collected` bit by bit: the error of the call, if it ended
/// in one, whatever it had reported before.
pub open spec fn collected_reply<T>(outcome: Result<(), String>, collected: T) -> Result<T, Error> {
    match outcome {
        Ok(_) => Ok(collected),
        Err(message) => Err(Error::Nix(message)),
    }
}

/// What a call comes to that reported a text: the error of the call, if it ended in one, else the
/// text or why it could not be read.
pub open spec fn text_reply(outcome: Result<(), String>, text: Result<String, String>) -> Result<
    String,
    Error,
> {
    match outcome {
        Ok(_) => reply(text),
        Err(message) => Err(Error::Nix(message)),
    }
}

/// The value that a call gave.
fn pass_on<T>(outcome: Result<T, String>) -> (r: Result<T, Error>)
    ensures
        r == reply(outcome),
{
    match outcome {
        Ok(value) => Ok(value),
        Err(message) => Err(Error::Nix(message)),
    }
}

/// The value that a call gave, unless that was null.
fn reject_null<T>(outcome: Result<Option<T>, String>, null: Error) -> (r: Result<T, Error>)
    ensures
        r == nullable_reply(outcome, null),
{
    match outcome {
        Ok(Some(value)) => Ok(value),
        Ok(None) => Err(null),
        Err(message) => Err(Error::Nix(message)),
    }
}

/// What a call reported bit by bit.
fn take_collected<T>(outcome: Result<(), String>, collected: T) -> (r: Result<T, Error>)
    ensures
        r == collected_reply(outcome, collected),
{
    match outcome {
        Ok(_) => Ok(collected),
        Err(message) => Err(Error::Nix(message)),
    }
}

/// Takes in one path of a closure as the C API reports it.
pub fn report_path<P>(paths: &mut Vec<P>, path: P)
    ensures
        final(paths)@ == old(paths)@.push(path),
{
    paths.push(path);
}

/// The text that a call reported.
fn read_text(outcome: Result<(), String>, text: Result<String, String>) -> (r: Result<
    String,
    Error,
>)
    ensures
        r == text_reply(outcome, text),
{
    match outcome {
        Ok(_) => pass_on(text),
        Err(message) => Err(Error::Nix(message)),
    }
}

impl<R> Store<R> {
    /// The shared reference to what the C API gave.
    pub fn inner(&self) -> (r: &Arc<R>)
        ensures
            **r == self@,
    {
        &self.inner
    }

    /// The store that a shared reference is to, where there is one.
    pub fn from_shared(found: Option<Arc<R>>) -> (r: Option<Store<R>>)
        ensures
            match found {
                Some(inner) => r matches Some(store) && store@ == *inner,
                None => r is None,
            },
    {
        match found {
            Some(inner) => Some(Store { inner }),
            None => None,
        }
    }

    /// A weak reference to this store.
    pub fn weak_ref(&self) -> (r: StoreWeak<R>)
        ensures
            r.target() == self@,
    {
        StoreWeak::downgrade(&self.inner)
    }

    /// One step of opening a store, or of sharing one that is open under the same key.
    ///
    /// Begins with [`OpenEvent::Asked`]. The caller does what the action says and comes back with
    /// what happened, until the action is to return. It holds the lock on the cache meanwhile.
    pub fn open(
        cache: &mut StoreCache<R>,
        key: &StoreKey,
        event: OpenEvent<Store<R>>,
    ) -> (action: OpenAction<Store<R>>)
        requires
            old(cache).wf(),
        ensures
            final(cache).wf(),
            crate::cache::open_allows(
                old(cache)@,
                key@,
                event.model(),
                final(cache)@,
                action.model(),
            ),
            event is Asked ==> exists|found: Option<Store<R>>| #[trigger]
                crate::cache::open_of_found(*old(cache), *key, found, final(cache)@, action),
    {
        let found = match event {
            OpenEvent::Asked => cache.follow(key),
            OpenEvent::Opened(_) => None,
        };
        let ghost before = *cache;
        let action = Store::open_found(cache, key, found, event);
        assert(event is Asked ==> crate::cache::open_of_found(before, *key, found, cache@, action));
        action
    }

    /// The step of opening a store that [`Store::open`] takes where following the cached reference
    /// gave `found`.
    pub fn open_found(
        cache: &mut StoreCache<R>,
        key: &StoreKey,
        found: Option<Store<R>>,
        event: OpenEvent<Store<R>>,
    ) -> (action: OpenAction<Store<R>>)
        requires
            old(cache).wf(),
        ensures
            final(cache).wf(),
            (final(cache)@, action.model()) == crate::cache::open_transition(
                old(cache)@,
                key@,
                crate::cache::seen(found),
                event.model(),
            ),
    {
        match event {
            OpenEvent::Asked => match found {
                Some(store) => OpenAction::Return(Ok(store)),
                None => OpenAction::OpenUncached,
            },
            OpenEvent::Opened(Ok(store)) => {
                cache.insert(key, store.weak_ref());
                OpenAction::Return(Ok(store))
            },
            OpenEvent::Opened(Err(e)) => OpenAction::Return(Err(e)),
        }
    }

    /// The arguments with which to ask the C API for the store `key`. `init` is how the
    /// initialisation of the store library ended.
    pub fn open_uncached(init: Result<(), String>, key: &StoreKey) -> (r: Result<OpenCall, Error>)
        ensures
            match init {
                Err(message) => r == Err::<OpenCall, Error>(Error::InitFailed(message)),
                Ok(_) => match first_nul_among(open_texts(key@)) {
                    Some(p) => r matches Err(Error::Nul(e)) && e.position == p,
                    None => r matches Ok(call) && call.bytes() == open_call_bytes(key@),
                },
            },
    {
        match init {
            Ok(_) => {},
            Err(message) => {
                return Err(Error::InitFailed(message));
            },
        }
        let ghost texts = param_texts(key@.1);
        let uri = match key.url() {
            Some(url) => {
                proof {
                    let all = seq![url@] + texts;
                    assert(all.skip(1) =~= texts);
                }
                match c_argument(url) {
                    Ok(c) => Some(c),
                    Err(e) => {
                        return Err(e);
                    },
                }
            },
            None => None,
        };
        let given = key.params();
        let ghost wanted = params_bytes(key@.1);
        let mut params: Vec<Option<(CText, CText)>> = Vec::new();
        let mut i: usize = 0;
        assert(key@.1.skip(0) =~= key@.1);
        while i < given.len()
            invariant
                i <= given.len(),
                params.len() == i,
                key@.1 == crate::cache::params_model(given@),
                wanted == params_bytes(key@.1),
                first_nul_among(texts) == first_nul_among(param_texts(key@.1.skip(i as int))),
                first_nul_among(open_texts(key@)) == first_nul_among(texts),
                init is Ok,
                forall|j: int|
                    #![trigger params@[j]]
                    0 <= j < i ==> param_bytes(params@[j]) == Some(wanted[j]),
            decreases given.len() - i,
        {
            let ghost rest = key@.1.skip(i as int);
            proof {
                let tail = param_texts(rest.skip(1));
                let all = seq![rest[0].0, rest[0].1] + tail;
                assert(rest.skip(1) =~= key@.1.skip(i + 1));
                assert(all.skip(1).skip(1) =~= tail);
                reveal_with_fuel(first_nul_among, 3);
            }
            let name = match c_argument(given[i].0.as_str()) {
                Ok(c) => c,
                Err(e) => {
                    return Err(e);
                },
            };
            let value = match c_argument(given[i].1.as_str()) {
                Ok(c) => c,
                Err(e) => {
                    return Err(e);
                },
            };
            params.push(Some((name, value)));
            i = i + 1;
        }
        params.push(None);
        Ok(OpenCall { uri, params })
    }

    /// The store that the C API opened.
    pub fn open_uncached_reply(outcome: Result<R, String>) -> (r: Result<Store<R>, Error>)
        ensures
            match outcome {
                Ok(handle) => r matches Ok(store) && store@ == handle,
                Err(message) => r == Err::<Store<R>, Error>(Error::Nix(message)),
            },
    {
        match outcome {
            Ok(handle) => Ok(Store { inner: Arc::new(handle) }),
            Err(message) => Err(Error::Nix(message)),
        }
    }

    /// The call for the URI of the store.
    pub fn get_uri(&self) -> (call: StoreCall<'_, R, ()>)
        ensures
            call.is_on(self@, ()),
    {
        self.call(())
    }

    /// The URI of the store. `outcome` is how the call ended, `text` what it reported.
    pub fn get_uri_reply(
        &self,
        outcome: Result<(), String>,
        text: Result<String, String>,
    ) -> (r: Result<String, Error>)
        ensures
            r == text_reply(outcome, text),
    {
        read_text(outcome, text)
    }

    /// The call for the directory of the store.
    pub fn get_storedir(&self) -> (call: StoreCall<'_, R, ()>)
        ensures
            call.is_on(self@, ()),
    {
        self.call(())
    }

    /// The directory of the store. `outcome` is how the call ended, `text` what it reported.
    pub fn get_storedir_reply(
        &self,
        outcome: Result<(), String>,
        text: Result<String, String>,
    ) -> (r: Result<String, Error>)
        ensures
            r == text_reply(outcome, text),
    {
        read_text(outcome, text)
    }

    /// The call that parses the store path `path`.
    pub fn parse_store_path(&self, path: &str) -> (r: Result<StoreCall<'_, R, CText>, Error>)
        ensures
            is_text_call(self@, path@, r),
    {
        self.text_call(path)
    }

    /// The store path that was parsed.
    pub fn parse_store_path_reply<P>(&self, outcome: Result<P, String>) -> (r: Result<P, Error>)
        ensures
            r == reply(outcome),
    {
        pass_on(outcome)
    }

    /// The call for the real path of the store path `path`.
    pub fn real_path<P>(&self, path: P) -> (call: StoreCall<'_, R, P>)
        ensures
            call.is_on(self@, path),
    {
        self.call(path)
    }

    /// The real path of a store path. `outcome` is how the call ended, `text` what it reported.
    pub fn real_path_reply(
        &self,
        outcome: Result<(), String>,
        text: Result<String, String>,
    ) -> (r: Result<String, Error>)
        ensures
            r == text_reply(outcome, text),
    {
        read_text(outcome, text)
    }

    /// The call that parses the derivation `json`.
    pub fn derivation_from_json(&self, json: &str) -> (r: Result<StoreCall<'_, R, CText>, Error>)
        ensures
            is_text_call(self@, json@, r),
    {
        self.text_call(json)
    }

    /// The derivation that was parsed.
    pub fn derivation_from_json_reply<D>(
        &self,
        outcome: Result<Option<D>, String>,
    ) -> (r: Result<D, Error>)
        ensures
            r == nullable_reply(outcome, Error::NullDerivation),
    {
        reject_null(outcome, Error::NullDerivation)
    }

    /// The call that adds the derivation `drv` to the store.
    pub fn add_derivation<D>(&self, drv: D) -> (call: StoreCall<'_, R, D>)
        ensures
            call.is_on(self@, drv),
    {
        self.call(drv)
    }

    /// The store path of the derivation that was added.
    pub fn add_derivation_reply<P>(&self, outcome: Result<Option<P>, String>) -> (r: Result<
        P,
        Error,
    >)
        ensures
            r == nullable_reply(outcome, Error::NullDerivationPath),
    {
        reject_null(outcome, Error::NullDerivationPath)
    }

    /// The call that builds the derivation at `path`.
    pub fn realise<P>(&self, path: P) -> (call: StoreCall<'_, R, P>)
        ensures
            call.is_on(self@, path),
    {
        self.call(path)
    }

    /// The outputs that were built. `outcome` is how the call ended, `outputs` what it reported.
    pub fn realise_reply<P>(&self, outcome: Result<(), String>, outputs: Outputs<P>) -> (r: Result<
        Outputs<P>,
        Error,
    >)
        ensures
            r == collected_reply(outcome, outputs),
    {
        take_collected(outcome, outputs)
    }

    /// The call for the closure of `store_path`.
    ///
    /// Forward, that is the paths that it refers to, with the outputs of each derivation among
    /// them if `include_outputs`, and the derivation of each output if `include_derivers`. With
    /// `flip_direction`, it is the paths that refer to it, with the derivations of each output
    /// among them if `include_outputs`, and the outputs of each derivation if `include_derivers`.
    pub fn get_fs_closure<P>(
        &self,
        store_path: P,
        flip_direction: bool,
        include_outputs: bool,
        include_derivers: bool,
    ) -> (call: StoreCall<'_, R, FsClosureArgs<P>>)
        ensures
            call.is_on(
                self@,
                (FsClosureArgs { store_path, flip_direction, include_outputs, include_derivers }),
            ),
    {
        self.call(FsClosureArgs { store_path, flip_direction, include_outputs, include_derivers })
    }

    /// The paths in the closure. `outcome` is how the call ended, `paths` what it reported.
    pub fn get_fs_closure_reply<P>(&self, outcome: Result<(), String>, paths: Vec<P>) -> (r: Result<
        Vec<P>,
        Error,
    >)
        ensures
            r == collected_reply(outcome, paths),
    {
        take_collected(outcome, paths)
    }

    /// A call on this store.
    fn call<A>(&self, args: A) -> (call: StoreCall<'_, R, A>)
        ensures
            call.is_on(self@, args),
    {
        StoreCall { store: &*self.inner, args }
    }

    /// A call on this store with `text` as its argument.
    fn text_call(&self, text: &str) -> (r: Result<StoreCall<'_, R, CText>, Error>)
        ensures
            is_text_call(self@, text@, r),
    {
        match c_argument(text) {
            Ok(c) => Ok(self.call(c)),
            Err(e) => Err(e),
        }
    }
}

impl<R> Clone for Store<R> {
    /// Another reference to the same store.
    fn clone(&self) -> (r: Store<R>)
        ensures
            r@ == self@,
    {
        Store { inner: self.inner.clone() }
    }
}

/// A weak reference that was made of a store gives back that store, or nothing.
pub proof fn law_weak_ref_gives_back_its_store<R>(
    store: Store<R>,
    weak: StoreWeak<R>,
    upgraded: Option<Store<R>>,
)
    requires
        call_ensures(Store::<R>::weak_ref, (&store,), weak),
        call_ensures(StoreWeak::<R>::upgrade, (&weak,), upgraded),
    ensures
        weak.gave(upgraded),
        upgraded is None || upgraded->0@ == store@,
{
}

/// A weak reference gives a store exactly if following the `std::sync::Weak` that it holds gave a
/// shared reference, and then the store is what that is to.
proof fn law_upgrade_is_what_following_gave<R>(weak: StoreWeak<R>, upgraded: Option<Store<R>>)
    requires
        call_ensures(StoreWeak::<R>::upgrade, (&weak,), upgraded),
    ensures
        exists|found: Option<Arc<R>>| #[trigger]
            call_ensures(StoreWeak::<R>::follow, (&weak,), found) && {
                &&& found is Some <==> upgraded is Some
                &&& found is Some ==> *found->0 == upgraded->0@
            },
{
    let found = choose|found: Option<Arc<R>>| #[trigger]
        call_ensures(StoreWeak::<R>::follow, (&weak,), found) && (found is Some <==> upgraded is Some);
    assert(call_ensures(StoreWeak::<R>::follow, (&weak,), found));
}

/// A clone is the same store: calls on it go to that store, and a weak reference that is made of
/// the one gives back the store of the other.
pub proof fn law_clone_is_the_same_store<R>(
    store: Store<R>,
    clone: Store<R>,
    weak: StoreWeak<R>,
    upgraded: Option<Store<R>>,
)
    requires
        call_ensures(<Store<R> as Clone>::clone, (&store,), clone),
        call_ensures(Store::<R>::weak_ref, (&clone,), weak),
        call_ensures(StoreWeak::<R>::upgrade, (&weak,), upgraded),
    ensures
        clone@ == store@,
        weak.target() == store@,
        upgraded is None || upgraded->0@ == store@,
{
}

/// A store that was opened past the cache is the one that the C API gave for it, so two of them
/// are apart whenever the C API gave two different ones.
pub proof fn law_uncached_stores_are_apart<R>(
    first: R,
    second: R,
    first_reply: Result<Store<R>, Error>,
    second_reply: Result<Store<R>, Error>,
)
    requires
        call_ensures(Store::<R>::open_uncached_reply, (Ok(first),), first_reply),
        call_ensures(Store::<R>::open_uncached_reply, (Ok(second),), second_reply),
        first != second,
    ensures
        first_reply is Ok && second_reply is Ok,
        first_reply->Ok_0@ == first,
        second_reply->Ok_0@ == second,
        first_reply->Ok_0@ != second_reply->Ok_0@,
{
}

/// Each time that a store is asked for what the C API gave for it, that is what comes back.
pub proof fn law_inner_is_stable<R>(store: Store<R>, once: &Arc<R>, again: &Arc<R>)
    requires
        call_ensures(Store::<R>::inner, (&store,), once),
        call_ensures(Store::<R>::inner, (&store,), again),
    ensures
        **once == store@,
        **again == **once,
{
}

proof fn lemma_first_nul_among(texts: Seq<Seq<char>>)
    ensures
        first_nul_among(texts) is None <==> forall|i: int|
            0 <= i < texts.len() ==> crate::ctext::first_nul(#[trigger] texts[i]) is None,
    decreases texts.len(),
{
    if texts.len() > 0 {
        let rest = texts.skip(1);
        lemma_first_nul_among(rest);
        if first_nul_among(texts) is None {
            assert forall|i: int| 0 <= i < texts.len() implies crate::ctext::first_nul(
                #[trigger] texts[i],
            ) is None by {
                if i > 0 {
                    assert(rest[i - 1] == texts[i]);
                }
            }
        }
    }
}

pub(crate) proof fn lemma_param_texts(params: Seq<(Seq<char>, Seq<char>)>)
    ensures
        param_texts(params).len() == 2 * params.len(),
        forall|i: int|
            #![trigger params[i]]
            0 <= i < params.len() ==> param_texts(params)[2 * i] == params[i].0 && param_texts(
                params,
            )[2 * i + 1] == params[i].1,
    decreases params.len(),
{
    if params.len() > 0 {
        let rest = params.skip(1);
        lemma_param_texts(rest);
        assert forall|i: int|
            #![trigger params[i]]
            0 <= i < params.len() implies param_texts(params)[2 * i] == params[i].0 && param_texts(
            params,
        )[2 * i + 1] == params[i].1 by {
            if i > 0 {
                assert(rest[i - 1] == params[i]);
            }
        }
    }
}

/// Whether `key` holds a NUL character in its URL or in a parameter.
pub open spec fn holds_nul(key: crate::cache::KeyModel) -> bool {
    ||| key.0 matches Some(url) && url.contains('\0')
    ||| exists|i: int|
        #![trigger key.1[i]]
        0 <= i < key.1.len() && (key.1[i].0.contains('\0') || key.1[i].1.contains('\0'))
}

/// The C API can be asked for a store exactly if neither its URL nor a parameter holds a NUL
/// character.
pub proof fn law_open_uncached_refuses_nul(key: crate::cache::KeyModel)
    ensures
        first_nul_among(open_texts(key)) is Some <==> holds_nul(key),
{
    let texts = open_texts(key);
    let params = param_texts(key.1);
    let shift: int = if key.0 is Some {
        1
    } else {
        0
    };
    lemma_first_nul_among(texts);
    lemma_param_texts(key.1);
    if holds_nul(key) {
        if key.0 is Some && key.0->0.contains('\0') {
            crate::ctext::law_nul_byte_is_nul_char(texts[0]);
        } else {
            let i = choose|i: int|
                #![trigger key.1[i]]
                0 <= i < key.1.len() && (key.1[i].0.contains('\0') || key.1[i].1.contains('\0'));
            crate::ctext::law_nul_byte_is_nul_char(texts[2 * i + shift]);
            crate::ctext::law_nul_byte_is_nul_char(texts[2 * i + 1 + shift]);
        }
    } else {
        assert forall|j: int| 0 <= j < texts.len() implies crate::ctext::first_nul(
            #[trigger] texts[j],
        ) is None by {
            crate::ctext::law_nul_byte_is_nul_char(texts[j]);
            if j >= shift {
                let i = (j - shift) / 2;
                assert(key.1[i].1 == params[2 * i + 1]);
            }
        }
    }
}

/// The C API is asked for the store that the key names: it reads the URL and the parameters of
/// the key, each as it was given and in the order in which they were given, and no more.
pub proof fn law_open_call_reads_back(key: crate::cache::KeyModel)
    requires
        !holds_nul(key),
    ensures
        open_call_bytes(key).0 is Some <==> key.0 is Some,
        key.0 matches Some(url) ==> vstd::utf8::decode_utf8(
            crate::ctext::c_read(open_call_bytes(key).0->0),
        ) == url,
        crate::ctext::read_to_null(open_call_bytes(key).1).len() == key.1.len(),
        forall|i: int|
            #![trigger key.1[i]]
            0 <= i < key.1.len() ==> {
                let p = crate::ctext::read_to_null(open_call_bytes(key).1)[i];
                &&& vstd::utf8::decode_utf8(crate::ctext::c_read(p.0)) == key.1[i].0
                &&& vstd::utf8::decode_utf8(crate::ctext::c_read(p.1)) == key.1[i].1
            },
{
    crate::ctext::law_null_terminated_reads_back(params_bytes(key.1));
    if let Some(url) = key.0 {
        crate::ctext::law_nul_byte_is_nul_char(url);
        crate::ctext::law_c_text_reads_back(url);
    }
    assert forall|i: int|
        #![trigger key.1[i]]
        0 <= i < key.1.len() implies {
        let p = crate::ctext::read_to_null(open_call_bytes(key).1)[i];
        &&& vstd::utf8::decode_utf8(crate::ctext::c_read(p.0)) == key.1[i].0
        &&& vstd::utf8::decode_utf8(crate::ctext::c_read(p.1)) == key.1[i].1
    } by {
        crate::ctext::law_nul_byte_is_nul_char(key.1[i].0);
        crate::ctext::law_nul_byte_is_nul_char(key.1[i].1);
        crate::ctext::law_c_text_reads_back(key.1[i].0);
        crate::ctext::law_c_text_reads_back(key.1[i].1);
    }
}

} // verus!
