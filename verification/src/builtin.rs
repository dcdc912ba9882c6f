//! Functions of the host program that Nix expressions can call.
use vstd::prelude::*;
use crate::ctext::{null_terminated, CText};
use crate::error::Error;

verus! {

/// The arguments with which the C API is asked for a primitive operation. `A` points to a text.
#[derive(Debug)]
pub struct AllocCall<A> {
    /// The number of parameters.
    pub arity: i32,
    /// The name of the builtin.
    pub name: A,
    /// The names of the parameters, ended by a null.
    pub args: Vec<Option<A>>,
    /// The documentation of the builtin.
    pub doc: A,
}

/// What happened while a builtin was being registered. `O` points to a primitive operation.
#[derive(Debug)]
pub enum RegisterEvent<O> {
    /// The C API was asked for a primitive operation.
    Allocated(Result<O, String>),
    /// The operation was to be entered among the builtins.
    Registered(O, Result<(), String>),
    /// The reference to the operation was to be given up.
    Released(Result<(), String>),
}

/// What to do next to register a builtin.
#[derive(Debug)]
pub enum RegisterAction<O> {
    /// Enter the operation among the builtins.
    Register(O),
    /// Give up the reference to the operation. The builtins hold their own.
    Release(O),
    /// Return this.
    Return(Result<(), Error>),
}

/// What to do after `event`.
pub open spec fn register_transition<O>(event: RegisterEvent<O>) -> RegisterAction<O> {
    match event {
        RegisterEvent::Allocated(Ok(op)) => RegisterAction::Register(op),
        RegisterEvent::Allocated(Err(m)) => RegisterAction::Return(Err(Error::Nix(m))),
        RegisterEvent::Registered(op, Ok(_)) => RegisterAction::Release(op),
        RegisterEvent::Registered(_, Err(m)) => RegisterAction::Return(Err(Error::Nix(m))),
        RegisterEvent::Released(Ok(_)) => RegisterAction::Return(Ok(())),
        RegisterEvent::Released(Err(m)) => RegisterAction::Return(Err(Error::Nix(m))),
    }
}

/// The registration of a builtin.
pub struct Builtin {}

impl Builtin {
    /// The first call that registers the builtin `name`, whose parameters have the names `args`.
    ///
    /// The caller makes it, and then does what [`Builtin::next`] says of what happened, until
    /// that is to return. A builtin has at least one parameter.
    pub fn new<A: Copy>(name: A, doc: A, args: &[A]) -> (call: AllocCall<A>)
        requires
            args@.len() != 0,
        ensures
            call.arity == args.len() as i32,
            args.len() <= i32::MAX ==> call.arity == args.len(),
            call.name == name,
            call.args@ == crate::ctext::null_terminated_seq(args@),
            call.doc == doc,
    {
        let arity: i32 = #[verifier::truncate] (args.len() as i32);
        AllocCall { arity, name, args: null_terminated(args), doc }
    }

    /// One step of registering a builtin: what to do after `event`.
    pub fn next<O>(event: RegisterEvent<O>) -> (action: RegisterAction<O>)
        ensures
            action == register_transition(event),
    {
        match event {
            RegisterEvent::Allocated(Ok(op)) => RegisterAction::Register(op),
            RegisterEvent::Allocated(Err(m)) => RegisterAction::Return(Err(Error::Nix(m))),
            RegisterEvent::Registered(op, Ok(_)) => RegisterAction::Release(op),
            RegisterEvent::Registered(_, Err(m)) => RegisterAction::Return(Err(Error::Nix(m))),
            RegisterEvent::Released(Ok(_)) => RegisterAction::Return(Ok(())),
            RegisterEvent::Released(Err(m)) => RegisterAction::Return(Err(Error::Nix(m))),
        }
    }
}

/// What is handed back to Nix when a builtin has run.
#[derive(Debug)]
pub enum CallReply<V> {
    /// Copy this value to where Nix wants the result.
    CopyValue(V),
    /// Leave this message in the error context of the call.
    SetError(CText),
}

/// The message that stands for one which cannot be a C string.
pub open spec fn nul_message() -> Seq<char> {
    "<rust nix-expr application error message contained null byte>"@
}

/// The message that Nix gets to see where a builtin failed with `message`.
pub open spec fn reported_message(message: Seq<char>) -> Seq<char> {
    if crate::ctext::first_nul(message) is None {
        message
    } else {
        nul_message()
    }
}

/// What is handed back to Nix when a builtin has given `result`: its value or its error message.
pub fn function_adapter<V>(result: Result<V, String>) -> (r: CallReply<V>)
    ensures
        match result {
            Ok(value) => r == CallReply::CopyValue(value),
            Err(message) => r matches CallReply::SetError(c) && c@ == crate::ctext::c_bytes(
                reported_message(message@),
            ),
        },
{
    match result {
        Ok(value) => CallReply::CopyValue(value),
        Err(message) => match CText::new(message.as_str()) {
            Ok(c) => CallReply::SetError(c),
            Err(_) => {
                proof {
                    lemma_nul_message_without_nul();
                }
                let c = CText::new("<rust nix-expr application error message contained null byte>");
                CallReply::SetError(c.unwrap())
            },
        },
    }
}

proof fn lemma_nul_message_without_nul()
    ensures
        crate::ctext::first_nul(nul_message()) is None,
{
    reveal_strlit("<rust nix-expr application error message contained null byte>");
    crate::ctext::law_nul_byte_is_nul_char(nul_message());
}

/// Whatever message a builtin fails with, Nix can read what it is handed: the message itself
/// where it holds no NUL, else the one that stands for it.
pub proof fn law_reported_message_is_readable(message: Seq<char>)
    ensures
        vstd::utf8::decode_utf8(
            crate::ctext::c_read(crate::ctext::c_bytes(reported_message(message))),
        ) == reported_message(message),
        !message.contains('\0') ==> reported_message(message) == message,
        message.contains('\0') ==> reported_message(message) == nul_message(),
{
    lemma_nul_message_without_nul();
    crate::ctext::law_nul_byte_is_nul_char(message);
    crate::ctext::law_c_text_reads_back(reported_message(message));
}

/// All that is done to register a builtin once the first call has given `allocated`, if the calls
/// after it give `registered` and `released`.
pub open spec fn register_run<O>(
    allocated: Result<O, String>,
    registered: Result<(), String>,
    released: Result<(), String>,
) -> Seq<RegisterAction<O>> {
    let first = register_transition(RegisterEvent::Allocated(allocated));
    match first {
        RegisterAction::Register(op) => {
            let second = register_transition(RegisterEvent::Registered(op, registered));
            match second {
                RegisterAction::Release(_) => seq![
                    first,
                    second,
                    register_transition(RegisterEvent::Released(released)),
                ],
                _ => seq![first, second],
            }
        },
        _ => seq![first],
    }
}

/// A registration succeeds exactly if all three calls do, and each call after the first is made
/// on the operation that the first one gave. Otherwise the registration returns the error of the
/// first call that failed, and makes none after that.
pub proof fn law_registration<O>(
    allocated: Result<O, String>,
    registered: Result<(), String>,
    released: Result<(), String>,
)
    ensures
        register_run(allocated, registered, released) == match allocated {
            Err(m) => seq![RegisterAction::Return(Err(Error::Nix(m)))],
            Ok(op) => match registered {
                Err(m) => seq![
                    RegisterAction::Register(op),
                    RegisterAction::Return(Err(Error::Nix(m))),
                ],
                Ok(_) => seq![
                    RegisterAction::Register(op),
                    RegisterAction::Release(op),
                    RegisterAction::Return(
                        match released {
                            Err(m) => Err(Error::Nix(m)),
                            Ok(_) => Ok(()),
                        },
                    ),
                ],
            },
        },
{
}

/// The first call that registers a builtin has its name and its documentation, the number of its
/// parameters, and the name of each in its place with a null behind the last.
pub proof fn law_alloc_call<A: Copy>(name: A, doc: A, args: &[A], call: AllocCall<A>)
    requires
        call_ensures(Builtin::new::<A>, (name, doc, args), call),
    ensures
        call.name == name,
        call.doc == doc,
        args@.len() <= i32::MAX ==> call.arity == args@.len(),
        call.args@.len() == args@.len() + 1,
        forall|i: int| 0 <= i < args@.len() ==> #[trigger] call.args@[i] == Some(args@[i]),
        call.args@[args@.len() as int] is None,
{
}

/// A call that failed ends the registration with its message, whatever that is. A call that
/// succeeded leads to the next one on the same operation, and after the last one the registration
/// has succeeded.
pub proof fn law_register_step<O>(event: RegisterEvent<O>, action: RegisterAction<O>)
    requires
        call_ensures(Builtin::next::<O>, (event,), action),
    ensures
        event matches RegisterEvent::Allocated(Ok(op)) ==> action == RegisterAction::Register(op),
        event matches RegisterEvent::Registered(op, Ok(_)) ==> action == RegisterAction::Release(
            op,
        ),
        event matches RegisterEvent::Released(Ok(_)) ==> action == RegisterAction::<O>::Return(
            Ok(()),
        ),
        event matches RegisterEvent::Allocated(Err(m)) ==> action == RegisterAction::<O>::Return(
            Err(Error::Nix(m)),
        ),
        event matches RegisterEvent::Registered(_, Err(m)) ==> action
            == RegisterAction::<O>::Return(Err(Error::Nix(m))),
        event matches RegisterEvent::Released(Err(m)) ==> action == RegisterAction::<O>::Return(
            Err(Error::Nix(m)),
        ),
{
}

/// Nix gets the value of a builtin that gave one. Where the builtin failed, what Nix reads is its
/// message, all of it, or a fixed text if the message holds a NUL character.
pub proof fn law_function_adapter<V>(result: Result<V, String>, r: CallReply<V>, bytes: &[u8])
    requires
        call_ensures(function_adapter::<V>, (result,), r),
        r matches CallReply::SetError(c) ==> call_ensures(
            CText::as_bytes_with_nul,
            (&c,),
            bytes,
        ),
    ensures
        r is CopyValue <==> result is Ok,
        result matches Ok(value) ==> r == CallReply::CopyValue(value),
        result matches Err(m) ==> bytes@ == vstd::utf8::encode_utf8(
            if m@.contains('\0') {
                "<rust nix-expr application error message contained null byte>"@
            } else {
                m@
            },
        ).push(0u8),
{
    if result is Err {
        crate::ctext::law_nul_byte_is_nul_char(result->Err_0@);
    }
}

} // verus!
