//! What holds of the operations as a caller sees them: how a result stands to the inputs, and how
//! calls stand to each other.
use vstd::prelude::*;
use crate::cache::{OpenAction, OpenEvent, StoreCache, StoreKey};
use crate::ctext::CText;
use crate::error::Error;
use crate::outputs::Outputs;
use crate::store::{report_path, FsClosureArgs, OpenCall, Store, StoreCall, StoreWeak};

verus! {

/// A key is the URL and the parameters that it was made of, every one of them and in their order,
/// and gives them back.
pub proof fn law_key_is_what_it_was_made_of(
    url: Option<&str>,
    params: &[(&str, &str)],
    key: StoreKey,
    got_url: Option<&str>,
    got_params: &[(String, String)],
)
    requires
        call_ensures(StoreKey::new, (url, params), key),
        call_ensures(StoreKey::url, (&key,), got_url),
        call_ensures(StoreKey::params, (&key,), got_params),
    ensures
        key@.0 is Some <==> url is Some,
        got_url is Some <==> url is Some,
        url matches Some(u) ==> key@.0 == Some(u@) && got_url->0@ == u@,
        key@.1.len() == params@.len(),
        got_params@.len() == params@.len(),
        forall|i: int|
            #![trigger params@[i]]
            #![trigger key@.1[i]]
            #![trigger got_params@[i]]
            0 <= i < params@.len() ==> {
                &&& key@.1[i].0 == params@[i].0@
                &&& key@.1[i].1 == params@[i].1@
                &&& got_params@[i].0@ == params@[i].0@
                &&& got_params@[i].1@ == params@[i].1@
            },
{
    let model = crate::cache::params_model(got_params@);
    assert(model.len() == got_params@.len());
    assert forall|i: int|
        #![trigger params@[i]]
        #![trigger key@.1[i]]
        #![trigger got_params@[i]]
        0 <= i < params@.len() implies {
        &&& key@.1[i].0 == params@[i].0@
        &&& key@.1[i].1 == params@[i].1@
        &&& got_params@[i].0@ == params@[i].0@
        &&& got_params@[i].1@ == params@[i].1@
    } by {
        assert(model[i] == (got_params@[i].0@, got_params@[i].1@));
    }
}

/// Two keys ask for the same store exactly if they were made of the same URL, or none, and of the
/// same parameters in the same order.
pub proof fn law_same_as(
    url: Option<&str>,
    params: &[(&str, &str)],
    key: StoreKey,
    other_url: Option<&str>,
    other_params: &[(&str, &str)],
    other: StoreKey,
    r: bool,
)
    requires
        call_ensures(StoreKey::new, (url, params), key),
        call_ensures(StoreKey::new, (other_url, other_params), other),
        call_ensures(StoreKey::same_as, (&key, &other), r),
    ensures
        r <==> {
            &&& url is Some <==> other_url is Some
            &&& url is Some && other_url is Some ==> url->0@ == other_url->0@
            &&& params@.len() == other_params@.len()
            &&& forall|i: int|
                #![trigger params@[i]]
                #![trigger other_params@[i]]
                0 <= i < params@.len() ==> params@[i].0@ == other_params@[i].0@ && params@[i].1@
                    == other_params@[i].1@
        },
{
    assert(key@.1.len() == params@.len());
    assert(other@.1.len() == other_params@.len());
    assert forall|i: int| 0 <= i < params@.len() implies #[trigger] key@.1[i] == (
        params@[i].0@,
        params@[i].1@,
    ) by {}
    assert forall|i: int| 0 <= i < other_params@.len() implies #[trigger] other@.1[i] == (
        other_params@[i].0@,
        other_params@[i].1@,
    ) by {}
    if {
        &&& params@.len() == other_params@.len()
        &&& forall|i: int|
            #![trigger params@[i]]
            #![trigger other_params@[i]]
            0 <= i < params@.len() ==> params@[i].0@ == other_params@[i].0@ && params@[i].1@
                == other_params@[i].1@
    } {
        assert forall|i: int| 0 <= i < key@.1.len() implies key@.1[i] == other@.1[i] by {
            assert(params@[i].0@ == other_params@[i].0@);
        }
        assert(key@.1 =~= other@.1);
    }
    if key@ == other@ {
        assert forall|i: int|
            #![trigger params@[i]]
            #![trigger other_params@[i]]
            0 <= i < params@.len() implies params@[i].0@ == other_params@[i].0@ && params@[i].1@
            == other_params@[i].1@ by {
            assert(key@.1[i] == other@.1[i]);
        }
    }
}

/// The call that opens a store hands over the URL, or null where none was given, and every
/// parameter in its place with a null behind the last: each text as all of its UTF-8 bytes and a
/// NUL. It is made unless a text holds a NUL character or the library could not be initialised.
pub proof fn law_open_call<R>(
    url: Option<&str>,
    params: &[(&str, &str)],
    key: StoreKey,
    init: Result<(), String>,
    r: Result<OpenCall, Error>,
)
    requires
        call_ensures(StoreKey::new, (url, params), key),
        call_ensures(Store::<R>::open_uncached, (init, &key), r),
    ensures
        init matches Err(m) ==> r == Err::<OpenCall, Error>(Error::InitFailed(m)),
        r is Ok <==> {
            &&& init is Ok
            &&& url matches Some(u) ==> !u@.contains('\0')
            &&& forall|i: int|
                #![trigger params@[i]]
                0 <= i < params@.len() ==> !params@[i].0@.contains('\0')
                    && !params@[i].1@.contains('\0')
        },
        r matches Ok(call) ==> {
            &&& call.uri is Some <==> url is Some
            &&& url matches Some(u) ==> call.uri->0@ == vstd::utf8::encode_utf8(u@).push(0u8)
            &&& call.params@.len() == params@.len() + 1
            &&& call.params@[params@.len() as int] is None
            &&& forall|i: int|
                0 <= i < params@.len() ==> {
                    &&& #[trigger] call.params@[i] is Some
                    &&& (call.params@[i]->0).0@ == vstd::utf8::encode_utf8(params@[i].0@).push(0u8)
                    &&& (call.params@[i]->0).1@ == vstd::utf8::encode_utf8(params@[i].1@).push(0u8)
                }
        },
        r is Err && init is Ok ==> r->Err_0 is Nul,
{
    assert(key@.1.len() == params@.len());
    assert forall|i: int| 0 <= i < params@.len() implies #[trigger] key@.1[i] == (
        params@[i].0@,
        params@[i].1@,
    ) by {}
    crate::store::law_open_uncached_refuses_nul(key@);
    if init is Ok {
        if crate::store::holds_nul(key@) {
            if !(key@.0 is Some && key@.0->0.contains('\0')) {
                let i = choose|i: int|
                    #![trigger key@.1[i]]
                    0 <= i < key@.1.len() && (key@.1[i].0.contains('\0') || key@.1[i].1.contains(
                        '\0',
                    ));
                assert(params@[i].0@.contains('\0') || params@[i].1@.contains('\0'));
            }
        } else {
            assert forall|i: int|
                #![trigger params@[i]]
                0 <= i < params@.len() implies !params@[i].0@.contains('\0')
                && !params@[i].1@.contains('\0') by {
                assert(!key@.1[i].0.contains('\0') && !key@.1[i].1.contains('\0'));
            }
            let call = r->Ok_0;
            let wanted = crate::store::params_bytes(key@.1);
            let bytes = call.bytes().1;
            assert(bytes.len() == call.params@.len());
            assert(bytes.len() == wanted.len() + 1);
            assert(bytes[params@.len() as int] is None);
            assert(bytes[params@.len() as int] == crate::store::param_bytes(
                call.params@[params@.len() as int],
            ));
            assert forall|i: int| 0 <= i < params@.len() implies {
                &&& #[trigger] call.params@[i] is Some
                &&& (call.params@[i]->0).0@ == vstd::utf8::encode_utf8(params@[i].0@).push(0u8)
                &&& (call.params@[i]->0).1@ == vstd::utf8::encode_utf8(params@[i].1@).push(0u8)
            } by {
                assert(bytes[i] == Some(wanted[i]));
                assert(bytes[i] == crate::store::param_bytes(call.params@[i]));
                assert(key@.1[i] == (params@[i].0@, params@[i].1@));
            }
        }
    }
}

proof fn lemma_first_nul_at(texts: Seq<Seq<char>>, n: int)
    requires
        0 <= n < texts.len(),
        forall|i: int| 0 <= i < n ==> !(#[trigger] texts[i]).contains('\0'),
        texts[n].contains('\0'),
    ensures
        crate::store::first_nul_among(texts) == crate::ctext::first_nul(texts[n]),
        crate::ctext::first_nul(texts[n]) is Some,
    decreases n,
{
    crate::ctext::law_nul_byte_is_nul_char(texts[n]);
    crate::ctext::law_nul_byte_is_nul_char(texts[0]);
    if n > 0 {
        lemma_first_nul_at(texts.skip(1), n - 1);
    }
}

/// Where a store cannot be opened for a NUL, the error tells where the first NUL byte stands in
/// the first text that has one, in the order of the URL and then each parameter's name and value.
pub proof fn law_open_call_reports_first_nul<R>(
    url: Option<&str>,
    params: &[(&str, &str)],
    key: StoreKey,
    r: Result<OpenCall, Error>,
    texts: Seq<Seq<char>>,
    n: int,
)
    requires
        call_ensures(StoreKey::new, (url, params), key),
        call_ensures(Store::<R>::open_uncached, (Ok(()), &key), r),
        url is Some ==> texts.len() == 1 + 2 * params@.len() && texts[0] == url->0@,
        url is None ==> texts.len() == 2 * params@.len(),
        forall|i: int|
            #![trigger params@[i]]
            0 <= i < params@.len() ==> {
                let at = 2 * i + (if url is Some {
                    1int
                } else {
                    0
                });
                texts[at] == params@[i].0@ && texts[at + 1] == params@[i].1@
            },
        0 <= n < texts.len(),
        texts[n].contains('\0'),
        forall|i: int| 0 <= i < n ==> !(#[trigger] texts[i]).contains('\0'),
    ensures
        r matches Err(Error::Nul(e)) && {
            let utf8 = vstd::utf8::encode_utf8(texts[n]);
            &&& e.position < utf8.len()
            &&& utf8[e.position as int] == 0
            &&& forall|i: int| 0 <= i < e.position ==> utf8[i] != 0
        },
{
    let shift: int = if url is Some {
        1
    } else {
        0
    };
    let all = crate::store::open_texts(key@);
    let behind = crate::store::param_texts(key@.1);
    crate::store::lemma_param_texts(key@.1);
    assert(key@.1.len() == params@.len());
    assert forall|j: int| 0 <= j < texts.len() implies all[j] == texts[j] by {
        if j >= shift {
            let i = (j - shift) / 2;
            assert(key@.1[i] == (params@[i].0@, params@[i].1@));
            assert(behind[2 * i] == key@.1[i].0);
            assert(texts[2 * i + shift] == params@[i].0@);
        }
    }
    assert(all =~= texts);
    lemma_first_nul_at(texts, n);
    vstd::utf8::encode_utf8(texts[n]).index_of_first_ensures(0u8);
}

/// A store is opened exactly if the C API gave one, and is that one; where the C API reported an
/// error, that is returned, whatever its message is.
pub proof fn law_open_uncached_reply<R>(
    outcome: Result<R, String>,
    r: Result<Store<R>, Error>,
    inner: &std::sync::Arc<R>,
)
    requires
        call_ensures(Store::<R>::open_uncached_reply, (outcome,), r),
        r matches Ok(store) ==> call_ensures(Store::<R>::inner, (&store,), inner),
    ensures
        r is Ok <==> outcome is Ok,
        outcome matches Ok(handle) ==> r->Ok_0@ == handle && **inner == handle,
        outcome matches Err(m) ==> r == Err::<Store<R>, Error>(Error::Nix(m)),
{
}

/// A shared reference is to the store that it was given for.
pub proof fn law_from_shared<R>(found: Option<std::sync::Arc<R>>, r: Option<Store<R>>)
    requires
        call_ensures(Store::<R>::from_shared, (found,), r),
    ensures
        r is Some <==> found is Some,
        found matches Some(inner) ==> r->0@ == *inner,
{
}

/// A call is made on the store that it is asked of.
pub proof fn law_calls_without_arguments<R>(store: Store<R>, call: StoreCall<'_, R, ()>)
    requires
        call_ensures(Store::<R>::get_uri, (&store,), call) || call_ensures(
            Store::<R>::get_storedir,
            (&store,),
            call,
        ),
    ensures
        *call.store == store@,
{
}

/// A call with a path or a derivation is made on the store that it is asked of, with that very
/// argument.
pub proof fn law_calls_with_one_argument<R, A>(
    store: Store<R>,
    argument: A,
    call: StoreCall<'_, R, A>,
)
    requires
        call_ensures(Store::<R>::real_path::<A>, (&store, argument), call) || call_ensures(
            Store::<R>::add_derivation::<A>,
            (&store, argument),
            call,
        ) || call_ensures(Store::<R>::realise::<A>, (&store, argument), call),
    ensures
        *call.store == store@,
        call.args == argument,
{
}

/// A call for a closure is made on the store that it is asked of, from the path and with each
/// option as it was given.
pub proof fn law_closure_call<R, P>(
    store: Store<R>,
    path: P,
    flip_direction: bool,
    include_outputs: bool,
    include_derivers: bool,
    call: StoreCall<'_, R, FsClosureArgs<P>>,
)
    requires
        call_ensures(
            Store::<R>::get_fs_closure::<P>,
            (&store, path, flip_direction, include_outputs, include_derivers),
            call,
        ),
    ensures
        *call.store == store@,
        call.args.store_path == path,
        call.args.flip_direction == flip_direction,
        call.args.include_outputs == include_outputs,
        call.args.include_derivers == include_derivers,
{
}

/// A store path or a derivation is parsed from the whole text that was given: the C API is handed
/// all of its UTF-8 bytes and a NUL, and what it reads decodes to that very text. The call is made
/// on the store that it is asked of, and is made unless the text holds a NUL character. Then the
/// error tells where the first NUL byte stands.
pub proof fn law_text_call<R>(
    store: Store<R>,
    text: &str,
    r: Result<StoreCall<'_, R, CText>, Error>,
    bytes: &[u8],
)
    requires
        call_ensures(Store::<R>::parse_store_path, (&store, text), r) || call_ensures(
            Store::<R>::derivation_from_json,
            (&store, text),
            r,
        ),
        r matches Ok(call) ==> call_ensures(CText::as_bytes_with_nul, (&call.args,), bytes),
    ensures
        r is Ok <==> !text@.contains('\0'),
        r matches Ok(call) ==> {
            &&& *call.store == store@
            &&& bytes@ == vstd::utf8::encode_utf8(text@).push(0u8)
            &&& vstd::utf8::decode_utf8(crate::ctext::c_read(bytes@)) == text@
        },
        r matches Err(error) ==> error matches Error::Nul(e) && {
            let utf8 = vstd::utf8::encode_utf8(text@);
            &&& e.position < utf8.len()
            &&& utf8[e.position as int] == 0
            &&& forall|i: int| 0 <= i < e.position ==> utf8[i] != 0
        },
{
    crate::ctext::law_nul_byte_is_nul_char(text@);
    vstd::utf8::encode_utf8(text@).index_of_first_ensures(0u8);
    if r is Ok {
        crate::ctext::law_c_text_reads_back(text@);
    }
}

/// Where a call succeeded and reported a text, that very text is returned, whatever it is. An
/// error is returned exactly if the call failed or no text could be read, and is the message of
/// the call, or else why the text could not be read.
pub proof fn law_text_replies<R>(
    store: Store<R>,
    outcome: Result<(), String>,
    text: Result<String, String>,
    r: Result<String, Error>,
)
    requires
        call_ensures(Store::<R>::get_uri_reply, (&store, outcome, text), r) || call_ensures(
            Store::<R>::get_storedir_reply,
            (&store, outcome, text),
            r,
        ) || call_ensures(Store::<R>::real_path_reply, (&store, outcome, text), r),
    ensures
        r is Ok <==> outcome is Ok && text is Ok,
        r matches Ok(t) ==> t@ == text->Ok_0@,
        outcome matches Err(m) ==> r == Err::<String, Error>(Error::Nix(m)),
        outcome is Ok && text is Err ==> r == Err::<String, Error>(Error::Nix(text->Err_0)),
{
}

/// A store path is parsed exactly if the C API gave one, and is that one; where the C API reported
/// an error, that is returned, whatever its message is.
pub proof fn law_parse_store_path_reply<R, P>(
    store: Store<R>,
    outcome: Result<P, String>,
    r: Result<P, Error>,
)
    requires
        call_ensures(Store::<R>::parse_store_path_reply::<P>, (&store, outcome), r),
    ensures
        r is Ok <==> outcome is Ok,
        outcome matches Ok(path) ==> r->Ok_0 == path,
        outcome matches Err(m) ==> r == Err::<P, Error>(Error::Nix(m)),
{
}

/// A derivation is parsed exactly if the C API gave one, and is that one. Null without a message
/// is an error of its own, and any message is returned.
pub proof fn law_derivation_from_json_reply<R, D>(
    store: Store<R>,
    outcome: Result<Option<D>, String>,
    r: Result<D, Error>,
)
    requires
        call_ensures(Store::<R>::derivation_from_json_reply::<D>, (&store, outcome), r),
    ensures
        r is Ok <==> outcome is Ok && outcome->Ok_0 is Some,
        r matches Ok(drv) ==> outcome == Ok::<Option<D>, String>(Some(drv)),
        outcome == Ok::<Option<D>, String>(None) ==> r == Err::<D, Error>(Error::NullDerivation),
        outcome matches Err(m) ==> r == Err::<D, Error>(Error::Nix(m)),
{
}

/// A derivation is added exactly if the C API gave its path, and that is returned. Null without a
/// message is an error of its own, and any message is returned.
pub proof fn law_add_derivation_reply<R, P>(
    store: Store<R>,
    outcome: Result<Option<P>, String>,
    r: Result<P, Error>,
)
    requires
        call_ensures(Store::<R>::add_derivation_reply::<P>, (&store, outcome), r),
    ensures
        r is Ok <==> outcome is Ok && outcome->Ok_0 is Some,
        r matches Ok(path) ==> outcome == Ok::<Option<P>, String>(Some(path)),
        outcome == Ok::<Option<P>, String>(None) ==> r == Err::<P, Error>(
            Error::NullDerivationPath,
        ),
        outcome matches Err(m) ==> r == Err::<P, Error>(Error::Nix(m)),
{
}

/// A build succeeds exactly if the call did, and then gives exactly the outputs that were
/// reported. Where the call failed, its message is returned, whatever that is and whatever had
/// been reported.
pub proof fn law_realise_reply<R, P>(
    store: Store<R>,
    outcome: Result<(), String>,
    outputs: Outputs<P>,
    r: Result<Outputs<P>, Error>,
)
    requires
        call_ensures(Store::<R>::realise_reply::<P>, (&store, outcome, outputs), r),
    ensures
        r is Ok <==> outcome is Ok,
        r matches Ok(given) ==> given == outputs,
        outcome matches Err(m) ==> r == Err::<Outputs<P>, Error>(Error::Nix(m)),
{
}

/// A closure is given exactly if the call succeeded, and then is exactly the paths that were
/// reported, in their order. Where the call failed, its message is returned, whatever that is and
/// whatever had been reported.
pub proof fn law_closure_reply<R, P>(
    store: Store<R>,
    outcome: Result<(), String>,
    paths: Vec<P>,
    r: Result<Vec<P>, Error>,
)
    requires
        call_ensures(Store::<R>::get_fs_closure_reply::<P>, (&store, outcome, paths), r),
    ensures
        r is Ok <==> outcome is Ok,
        r matches Ok(given) ==> given@ == paths@,
        outcome matches Err(m) ==> r == Err::<Vec<P>, Error>(Error::Nix(m)),
{
}

/// A path that is reported is the last one from then on, and those that were reported before
/// stay as they were.
pub proof fn law_report_path<P>(paths: &mut Vec<P>, path: P)
    requires
        call_ensures(report_path::<P>, (paths, path), ()),
    ensures
        final(paths)@.len() == old(paths)@.len() + 1,
        final(paths)@[old(paths)@.len() as int] == path,
        forall|i: int|
            0 <= i < old(paths)@.len() ==> #[trigger] final(paths)@[i] == old(paths)@[i],
{
}

/// A reference that was cached for a key is the one that is found under that key, and what is
/// found under every other key stays as it was. A new cache has none.
pub proof fn law_cached_reference_is_found<R>(
    cache: &mut StoreCache<R>,
    key: StoreKey,
    weak: StoreWeak<R>,
    asked: StoreKey,
    before: Option<&StoreWeak<R>>,
    after: Option<&StoreWeak<R>>,
)
    requires
        call_ensures(StoreCache::<R>::insert, (cache, &key, weak), ()),
        call_ensures(StoreCache::<R>::get, (&*old(cache), &asked), before),
        call_ensures(StoreCache::<R>::get, (&*final(cache), &asked), after),
    ensures
        asked@ == key@ ==> after is Some && after->0.target() == weak.target(),
        asked@ != key@ ==> (after is Some <==> before is Some),
        asked@ != key@ && after is Some ==> after->0.target() == before->0.target(),
        call_ensures(StoreCache::<R>::new, (), *old(cache)) ==> before is None,
{
}

/// The store that a reference gives, if any, is the one that the reference was made from, and a
/// reference that was made from another store does not give it.
pub proof fn law_reference_gives_what_it_was_made_from<R>(
    store: Store<R>,
    weak: StoreWeak<R>,
    other: Store<R>,
    other_weak: StoreWeak<R>,
    given: Option<Store<R>>,
)
    requires
        call_ensures(Store::<R>::weak_ref, (&store,), weak),
        call_ensures(Store::<R>::weak_ref, (&other,), other_weak),
        call_ensures(StoreWeak::<R>::upgrade, (&weak,), given),
        store@ != other@,
    ensures
        given matches Some(s) ==> s@ == store@,
        weak != other_weak,
{
}

/// One step of opening a store, where following the cached reference gave `found`. One who asks
/// gets the store that was found, and has the C API asked if none was. A store that the C API gave
/// is returned, and is found under the key from then on, whatever was there. An error is returned.
/// Nothing else changes what is found under any key.
pub proof fn law_open_found<R>(
    cache: &mut StoreCache<R>,
    key: StoreKey,
    found: Option<Store<R>>,
    event: OpenEvent<Store<R>>,
    action: OpenAction<Store<R>>,
    asked: StoreKey,
    before: Option<&StoreWeak<R>>,
    after: Option<&StoreWeak<R>>,
)
    requires
        call_ensures(Store::<R>::open_found, (cache, &key, found, event), action),
        call_ensures(StoreCache::<R>::get, (&*old(cache), &asked), before),
        call_ensures(StoreCache::<R>::get, (&*final(cache), &asked), after),
    ensures
        event is Asked && found is None ==> action is OpenUncached,
        event is Asked && found is Some ==> {
            &&& action is Return
            &&& action->0 is Ok
            &&& action->0->Ok_0@ == found->0@
        },
        event matches OpenEvent::Opened(Ok(store)) ==> {
            &&& action is Return
            &&& action->0 is Ok
            &&& action->0->Ok_0@ == store@
            &&& asked@ == key@ ==> after is Some && after->0.target() == store@
        },
        event matches OpenEvent::Opened(Err(e)) ==> action == OpenAction::<Store<R>>::Return(
            Err(e),
        ),
        asked@ != key@ || event is Asked || event->0 is Err ==> {
            &&& after is Some <==> before is Some
            &&& after is Some ==> after->0.target() == before->0.target()
        },
{
}

/// One who asks for a store gets what following the cached reference gave, and has the C API asked
/// exactly if that gave nothing. It gives nothing where nothing is cached.
pub proof fn law_asking_follows_the_cached_reference<R>(
    cache: &mut StoreCache<R>,
    key: StoreKey,
    action: OpenAction<Store<R>>,
    cached: Option<&StoreWeak<R>>,
)
    requires
        call_ensures(Store::<R>::open, (cache, &key, OpenEvent::Asked), action),
        call_ensures(StoreCache::<R>::get, (&*old(cache), &key), cached),
    ensures
        cached is None ==> action is OpenUncached,
        cached matches Some(kept) ==> exists|weak: StoreWeak<R>, found: Option<Store<R>>| #[trigger]
            call_ensures(StoreWeak::<R>::upgrade, (&weak,), found) && {
                &&& weak.target() == kept.target()
                &&& found is None ==> action is OpenUncached
                &&& found matches Some(store) ==> {
                    &&& store@ == kept.target()
                    &&& action is Return
                    &&& action->0 is Ok
                    &&& action->0->Ok_0@ == store@
                }
            },
{
    let found = choose|found: Option<Store<R>>| #[trigger]
        crate::cache::open_of_found(*old(cache), key, found, final(cache)@, action);
    assert(crate::cache::open_of_found(*old(cache), key, found, final(cache)@, action));
    if cached is Some {
        let weak = choose|weak: StoreWeak<R>|
            weak.target() == old(cache)@[key@] && #[trigger] call_ensures(
                StoreWeak::<R>::upgrade,
                (&weak,),
                found,
            );
        assert(call_ensures(StoreWeak::<R>::upgrade, (&weak,), found));
    }
}

/// What a cache holds after a history of steps: under the key of a store that was opened, that
/// store, if none was opened under the same key since.
proof fn lemma_opened_store_stays_cached<R>(
    caches: Seq<&mut StoreCache<R>>,
    keys: Seq<StoreKey>,
    events: Seq<OpenEvent<Store<R>>>,
    actions: Seq<OpenAction<Store<R>>>,
    i: int,
    j: int,
    store: Store<R>,
)
    requires
        0 <= i < j < caches.len(),
        forall|k: int|
            0 <= k < caches.len() ==> #[trigger] call_ensures(
                Store::<R>::open,
                (caches[k], &keys[k], events[k]),
                actions[k],
            ),
        forall|k: int| 0 < k < caches.len() ==> *#[trigger] caches[k] == *final(caches[k - 1]),
        events[i] == OpenEvent::Opened(Ok::<Store<R>, Error>(store)),
        forall|k: int|
            i < k < j && (#[trigger] keys[k])@ == keys[i]@ ==> events[k] is Asked
                || events[k]->0 is Err,
    ensures
        caches[j]@.contains_key(keys[i]@),
        caches[j]@[keys[i]@] == store@,
    decreases j - i,
{
    assert(call_ensures(
        Store::<R>::open,
        (caches[j - 1], &keys[j - 1], events[j - 1]),
        actions[j - 1],
    ));
    assert(*caches[j] == *final(caches[j - 1]));
    if j - 1 > i {
        lemma_opened_store_stays_cached(caches, keys, events, actions, i, j - 1, store);
        assert(keys[j - 1]@ == keys[i]@ ==> events[j - 1] is Asked || events[j - 1]->0 is Err);
    }
}

/// A store that was opened is shared. Step `i` of a history opened `store`, and step `j` asks for
/// one with the same URL and the same parameters, with no other opened by these since. Then what
/// step `j` returns is that very store, whatever else was opened under other keys before, after or
/// between. The C API has to be asked only if following a reference to that store gave nothing.
pub proof fn law_opened_store_is_shared<R>(
    caches: Seq<&mut StoreCache<R>>,
    keys: Seq<StoreKey>,
    events: Seq<OpenEvent<Store<R>>>,
    actions: Seq<OpenAction<Store<R>>>,
    i: int,
    j: int,
    store: Store<R>,
)
    requires
        0 <= i < j < caches.len(),
        forall|k: int|
            0 <= k < caches.len() ==> #[trigger] call_ensures(
                Store::<R>::open,
                (caches[k], &keys[k], events[k]),
                actions[k],
            ),
        forall|k: int| 0 < k < caches.len() ==> *#[trigger] caches[k] == *final(caches[k - 1]),
        events[i] == OpenEvent::Opened(Ok::<Store<R>, Error>(store)),
        events[j] is Asked,
        keys[j]@ == keys[i]@,
        forall|k: int|
            i < k < j && (#[trigger] keys[k])@ == keys[i]@ ==> events[k] is Asked
                || events[k]->0 is Err,
    ensures
        actions[j] is Return ==> actions[j]->0 is Ok && actions[j]->0->Ok_0@ == store@,
        exists|weak: StoreWeak<R>, found: Option<Store<R>>| #[trigger]
            call_ensures(StoreWeak::<R>::upgrade, (&weak,), found) && {
                &&& weak.target() == store@
                &&& found is Some <==> actions[j] is Return
            },
{
    lemma_opened_store_stays_cached(caches, keys, events, actions, i, j, store);
    let cache = caches[j];
    assert(call_ensures(Store::<R>::open, (caches[j], &keys[j], events[j]), actions[j]));
    let found = choose|found: Option<Store<R>>| #[trigger]
        crate::cache::open_of_found(*cache, keys[j], found, final(cache)@, actions[j]);
    assert(crate::cache::open_of_found(*cache, keys[j], found, final(cache)@, actions[j]));
    let weak = choose|weak: StoreWeak<R>|
        weak.target() == cache@[keys[j]@] && #[trigger] call_ensures(
            StoreWeak::<R>::upgrade,
            (&weak,),
            found,
        );
    assert(call_ensures(StoreWeak::<R>::upgrade, (&weak,), found));
}

/// What an empty cache comes to hold under a key was opened under that key.
proof fn lemma_cached_store_was_opened<R>(
    caches: Seq<&mut StoreCache<R>>,
    keys: Seq<StoreKey>,
    events: Seq<OpenEvent<Store<R>>>,
    actions: Seq<OpenAction<Store<R>>>,
    j: int,
    key: StoreKey,
)
    requires
        0 <= j < caches.len(),
        call_ensures(StoreCache::<R>::new, (), *caches[0]),
        forall|k: int|
            0 <= k < caches.len() ==> #[trigger] call_ensures(
                Store::<R>::open,
                (caches[k], &keys[k], events[k]),
                actions[k],
            ),
        forall|k: int| 0 < k < caches.len() ==> *#[trigger] caches[k] == *final(caches[k - 1]),
        caches[j]@.contains_key(key@),
    ensures
        exists|i: int|
            0 <= i < j && (#[trigger] keys[i])@ == key@ && events[i] is Opened && events[i]->0 is Ok
                && events[i]->0->Ok_0@ == caches[j]@[key@],
    decreases j,
{
    if j > 0 {
        assert(call_ensures(
            Store::<R>::open,
            (caches[j - 1], &keys[j - 1], events[j - 1]),
            actions[j - 1],
        ));
        assert(*caches[j] == *final(caches[j - 1]));
        if !(keys[j - 1]@ == key@ && events[j - 1] is Opened && events[j - 1]->0 is Ok) {
            lemma_cached_store_was_opened(caches, keys, events, actions, j - 1, key);
        }
    }
}

/// Whoever asks for a store gets their own parameters as asked for: in a history from an empty
/// cache, a store that is returned without asking the C API was opened earlier by the same URL and
/// the same parameters.
pub proof fn law_returned_store_was_opened_as_asked_for<R>(
    caches: Seq<&mut StoreCache<R>>,
    keys: Seq<StoreKey>,
    events: Seq<OpenEvent<Store<R>>>,
    actions: Seq<OpenAction<Store<R>>>,
    j: int,
)
    requires
        0 <= j < caches.len(),
        call_ensures(StoreCache::<R>::new, (), *caches[0]),
        forall|k: int|
            0 <= k < caches.len() ==> #[trigger] call_ensures(
                Store::<R>::open,
                (caches[k], &keys[k], events[k]),
                actions[k],
            ),
        forall|k: int| 0 < k < caches.len() ==> *#[trigger] caches[k] == *final(caches[k - 1]),
        events[j] is Asked,
        actions[j] is Return,
    ensures
        actions[j]->0 is Ok,
        exists|i: int|
            0 <= i < j && (#[trigger] keys[i])@ == keys[j]@ && events[i] is Opened
                && events[i]->0 is Ok && events[i]->0->Ok_0@ == actions[j]->0->Ok_0@,
{
    assert(call_ensures(Store::<R>::open, (caches[j], &keys[j], events[j]), actions[j]));
    lemma_cached_store_was_opened(caches, keys, events, actions, j, keys[j]);
}

/// What the C API gave when it was asked is returned as it is: the store that it opened, or the
/// error.
pub proof fn law_opened_store_is_returned<R>(
    cache: &mut StoreCache<R>,
    key: StoreKey,
    opened: Result<Store<R>, Error>,
    action: OpenAction<Store<R>>,
)
    requires
        call_ensures(Store::<R>::open, (cache, &key, OpenEvent::Opened(opened)), action),
    ensures
        action is Return,
        action->0 is Ok <==> opened is Ok,
        opened matches Ok(store) ==> action->0->Ok_0@ == store@,
        opened matches Err(e) ==> action->0->Err_0 == e,
{
}

} // verus!
