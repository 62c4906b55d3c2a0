//! Common definitions of the wire protocol: argument types, arguments,
//! interface and message descriptions, protocol errors.
use vstd::prelude::*;
use crate::text::{
    byte_list_items, decimal, escaped_bytes, push_byte_list, push_char, push_decimal,
    push_escaped_bytes, push_signed_decimal, push_str, signed_decimal, str_eq,
};

verus! {

/// The wire-level C description of an interface, carried along with the
/// Rust description.
#[verifier::external_type_specification]
#[verifier::external_body]
pub struct ExWlInterface(wayland_sys::common::wl_interface);

/// Whether a nullable argument may be null.
#[derive(Clone, Copy, PartialEq, Eq, Structural, Debug)]
pub enum AllowNull {
    Yes,
    No,
}

/// Enum of possible argument types as recognized by the wire
#[derive(Clone, Copy, PartialEq, Eq, Structural, Debug)]
pub enum ArgumentType {
    /// i32
    Int,
    /// u32
    Uint,
    /// fixed point, 1/256 precision
    Fixed,
    /// string
    Str(AllowNull),
    /// id of a wayland object
    Object(AllowNull),
    /// id of a newly created wayland object
    NewId(AllowNull),
    /// array of bytes
    Array(AllowNull),
    /// file descriptor
    Fd,
}

/// The kind of an argument type, with its nullability left out.
pub open spec fn type_kind(t: ArgumentType) -> int {
    match t {
        ArgumentType::Int => 0,
        ArgumentType::Uint => 1,
        ArgumentType::Fixed => 2,
        ArgumentType::Str(_) => 3,
        ArgumentType::Object(_) => 4,
        ArgumentType::NewId(_) => 5,
        ArgumentType::Array(_) => 6,
        ArgumentType::Fd => 7,
    }
}

impl ArgumentType {
    /// Two argument types are of the same type when they are the same variant,
    /// whatever their nullability.
    pub open spec fn spec_same_type(self, other: Self) -> bool {
        type_kind(self) == type_kind(other)
    }

    /// Whether `self` and `other` are the same variant, nullability ignored.
    #[verifier::when_used_as_spec(spec_same_type)]
    pub fn same_type(self, other: Self) -> (r: bool)
        ensures
            r == self.spec_same_type(other),
    {
        match (self, other) {
            (ArgumentType::Int, ArgumentType::Int) => true,
            (ArgumentType::Uint, ArgumentType::Uint) => true,
            (ArgumentType::Fixed, ArgumentType::Fixed) => true,
            (ArgumentType::Str(_), ArgumentType::Str(_)) => true,
            (ArgumentType::Object(_), ArgumentType::Object(_)) => true,
            (ArgumentType::NewId(_), ArgumentType::NewId(_)) => true,
            (ArgumentType::Array(_), ArgumentType::Array(_)) => true,
            (ArgumentType::Fd, ArgumentType::Fd) => true,
            _ => false,
        }
    }
}

/// `same_type` is an equivalence relation: reflexive, symmetric and transitive.
pub proof fn lemma_same_type_equivalence(a: ArgumentType, b: ArgumentType, c: ArgumentType)
    ensures
        a.same_type(a),
        a.same_type(b) == b.same_type(a),
        a.same_type(b) && b.same_type(c) ==> a.same_type(c),
{
}

/// `same_type` ignores nullability: the nullable and non-nullable variants of a
/// type are the same type, and two types are the same exactly when they agree once
/// both are made nullable.
pub proof fn lemma_same_type_ignores_nullability(a: AllowNull, b: AllowNull)
    ensures
        ArgumentType::Str(a).same_type(ArgumentType::Str(b)),
        ArgumentType::Object(a).same_type(ArgumentType::Object(b)),
        ArgumentType::NewId(a).same_type(ArgumentType::NewId(b)),
        ArgumentType::Array(a).same_type(ArgumentType::Array(b)),
        !ArgumentType::Str(a).same_type(ArgumentType::Array(b)),
        !ArgumentType::Object(a).same_type(ArgumentType::NewId(b)),
{
}

/// Enum of possible arguments of the protocol
#[derive(Clone, PartialEq, Debug)]
pub enum Argument<Id> {
    /// i32
    Int(i32),
    /// u32
    Uint(u32),
    /// fixed point, 1/256 precision
    Fixed(i32),
    /// string, as the bytes of a C string without its terminating nul byte
    ///
    /// The value is boxed to reduce the stack size of Argument: strings are rare
    /// in the protocol.
    Str(Box<Vec<u8>>),
    /// id of a wayland object
    Object(Id),
    /// id of a newly created wayland object
    NewId(Id),
    /// array of bytes, boxed for the same reason as strings
    Array(Box<Vec<u8>>),
    /// file descriptor
    Fd(i32),
}

impl<Id> Argument<Id> {
    /// The type of an argument; nullable kinds are reported as nullable.
    pub open spec fn spec_get_type(&self) -> ArgumentType {
        match *self {
            Argument::Int(_) => ArgumentType::Int,
            Argument::Uint(_) => ArgumentType::Uint,
            Argument::Fixed(_) => ArgumentType::Fixed,
            Argument::Str(_) => ArgumentType::Str(AllowNull::Yes),
            Argument::Object(_) => ArgumentType::Object(AllowNull::Yes),
            Argument::NewId(_) => ArgumentType::NewId(AllowNull::Yes),
            Argument::Array(_) => ArgumentType::Array(AllowNull::Yes),
            Argument::Fd(_) => ArgumentType::Fd,
        }
    }

    /// Retrieve the type of a given argument instance
    #[verifier::when_used_as_spec(spec_get_type)]
    pub fn get_type(&self) -> (t: ArgumentType)
        ensures
            t == self.spec_get_type(),
    {
        match self {
            Argument::Int(_) => ArgumentType::Int,
            Argument::Uint(_) => ArgumentType::Uint,
            Argument::Fixed(_) => ArgumentType::Fixed,
            Argument::Str(_) => ArgumentType::Str(AllowNull::Yes),
            Argument::Object(_) => ArgumentType::Object(AllowNull::Yes),
            Argument::NewId(_) => ArgumentType::NewId(AllowNull::Yes),
            Argument::Array(_) => ArgumentType::Array(AllowNull::Yes),
            Argument::Fd(_) => ArgumentType::Fd,
        }
    }
}

/// Whether `args` has exactly the shape that `signature` describes: as many
/// arguments as the signature has entries, each of the type at its position.
pub open spec fn matches_signature<Id>(signature: Seq<ArgumentType>, args: Seq<Argument<Id>>) -> bool {
    &&& signature.len() == args.len()
    &&& forall|i: int| 0 <= i < args.len() ==> (#[trigger] args[i]).get_type().same_type(signature[i])
}

/// Checks whether a list of arguments matches a message signature.
pub fn check_for_signature<Id>(signature: &[ArgumentType], args: &[Argument<Id>]) -> (r: bool)
    ensures
        r == matches_signature(signature@, args@),
{
    if signature.len() != args.len() {
        return false;
    }
    let n = args.len();
    let mut i: usize = 0;
    while i < n
        invariant
            n == args@.len(),
            n == signature@.len(),
            i <= n,
            forall|j: int| 0 <= j < i ==> (#[trigger] args@[j]).get_type().same_type(signature@[j]),
        decreases n - i,
    {
        if !args[i].get_type().same_type(signature[i]) {
            return false;
        }
        i = i + 1;
    }
    true
}

/// Wire metadata of a given message
#[derive(Clone, Copy, Debug)]
pub struct MessageDesc {
    /// Name of this message
    pub name: &'static str,
    /// Signature of the message
    pub signature: &'static [ArgumentType],
    /// Minimum required version of the interface
    pub since: u32,
    /// Whether this message is a destructor
    pub is_destructor: bool,
    /// The interface of the object that this message creates, if any
    pub child_interface: Option<&'static Interface>,
    /// The interfaces of the object arguments of this message
    pub arg_interfaces: &'static [&'static Interface],
}

/// Description of a protocol interface.
#[derive(Debug)]
pub struct Interface {
    /// The name of the interface
    pub name: &'static str,
    /// The highest version of the interface
    pub version: u32,
    /// The requests of the interface, indexed by opcode
    pub requests: &'static [MessageDesc],
    /// The events of the interface, indexed by opcode
    pub events: &'static [MessageDesc],
    /// The C description of the interface, when there is one
    pub c_ptr: Option<&'static wayland_sys::common::wl_interface>,
}

/// Description of the protocol-level information of an object
#[derive(Clone, Copy, Debug)]
pub struct ObjectInfo {
    /// The protocol ID
    pub id: u32,
    /// The interface
    pub interface: &'static Interface,
    /// The version
    pub version: u32,
}

/// A protocol error
///
/// This kind of error is generated by the server if a client didn't respect
/// the protocol, after which the server will kill its connection.
#[derive(Clone, Debug)]
pub struct ProtocolError {
    /// The error code associated with the error
    ///
    /// It should be interpreted as an instance of the `Error` enum of the
    /// associated interface.
    pub code: u32,
    /// The id of the object that caused the error
    pub object_id: u32,
    /// The interface of the object that caused the error
    pub object_interface: String,
    /// The message sent by the server describing the error
    pub message: String,
}

/// The number of arguments that a message holds without allocating.
pub const INLINE_ARGS: usize = 4;

/// A protocol message: the object that sends it, its opcode and its arguments.
#[derive(Debug, Clone, PartialEq)]
#[verifier::reject_recursive_types(Id)]
pub struct Message<Id> {
    pub sender_id: Id,
    pub opcode: u16,
    pub args: MessageArgs<Id>,
}

/// The arguments of a message, in a small vector that holds up to
/// [`INLINE_ARGS`] of them without allocating. No verified code looks inside.
#[verifier::external_body]
#[verifier::reject_recursive_types(Id)]
#[derive(Debug, PartialEq)]
pub struct MessageArgs<Id>(pub smallvec::SmallVec<[Argument<Id>; INLINE_ARGS]>);

impl<Id: Clone> Clone for MessageArgs<Id> {
    /// Calls `SmallVec::clone`, which clones each argument into a new small
    /// vector; nothing is stated of the copy.
    #[verifier::external_body]
    fn clone(&self) -> Self {
        MessageArgs(self.0.clone())
    }
}

/// Whether two interfaces are the same interface: the same description, or
/// descriptions of the same name.
pub open spec fn spec_same_interface(a: &Interface, b: &Interface) -> bool {
    a.name@ == b.name@
}

/// Checks whether two interfaces are the same: the same description, or two
/// descriptions of the same name. The name decides, since one description has
/// one name.
#[verifier::when_used_as_spec(spec_same_interface)]
pub fn same_interface(a: &'static Interface, b: &'static Interface) -> (r: bool)
    ensures
        r == spec_same_interface(a, b),
{
    str_eq(a.name, b.name)
}

/// The name of the interface that stands for an anonymous object.
pub open spec fn anonymous_name() -> Seq<char> {
    seq!['<', 'a', 'n', 'o', 'n', 'y', 'm', 'o', 'u', 's', '>']
}

/// Special interface representing an anonymous object: named `<anonymous>`, of
/// version 0, with no request, no event and no C description.
pub fn anonymous_interface() -> (r: &'static Interface)
    ensures
        r.name@ == anonymous_name(),
        r.version == 0,
        r.requests@.len() == 0,
        r.events@.len() == 0,
        r.c_ptr is None,
{
    let r: &'static Interface = &Interface {
        name: "<anonymous>",
        version: 0,
        requests: &[],
        events: &[],
        c_ptr: None,
    };
    proof {
        reveal_strlit("<anonymous>");
    }
    assert(r.name@ =~= anonymous_name());
    r
}

/// Checks whether two interfaces are the same, or the first one is anonymous.
pub fn same_interface_or_anonymous(a: &'static Interface, b: &'static Interface) -> (r: bool)
    ensures
        r == (spec_same_interface(a, b) || a.name@ == anonymous_name()),
{
    same_interface(a, b) || same_interface(a, anonymous_interface())
}

/// Being the same interface is an equivalence relation.
pub proof fn lemma_same_interface_equivalence(a: &Interface, b: &Interface, c: &Interface)
    ensures
        spec_same_interface(a, a),
        spec_same_interface(a, b) == spec_same_interface(b, a),
        spec_same_interface(a, b) && spec_same_interface(b, c) ==> spec_same_interface(a, c),
{
}

/// The text of a protocol error: its code, the interface and id of the object
/// that caused it, and its message.
pub open spec fn protocol_error_text(code: u32, object_interface: Seq<char>, object_id: u32, message: Seq<char>) -> Seq<char> {
    "Protocol error "@ + decimal(code as nat) + " on object "@ + object_interface + "@"@
        + decimal(object_id as nat) + ": "@ + message
}

impl ProtocolError {
    /// The text of this error: `Protocol error <code> on object <interface>@<id>: <message>`.
    pub fn to_display_string(&self) -> (s: String)
        ensures
            s@ == protocol_error_text(self.code, self.object_interface@, self.object_id, self.message@),
    {
        let mut s = String::new();
        push_str(&mut s, "Protocol error ");
        push_decimal(&mut s, self.code);
        push_str(&mut s, " on object ");
        push_str(&mut s, self.object_interface.as_str());
        push_str(&mut s, "@");
        push_decimal(&mut s, self.object_id);
        push_str(&mut s, ": ");
        push_str(&mut s, self.message.as_str());
        s
    }
}

/// Ids that can be written out as text.
pub trait DisplayId {
    /// The text of the id.
    spec fn id_text(&self) -> Seq<char>;

    /// Writes out the id.
    fn id_to_string(&self) -> (s: String)
        ensures
            s@ == self.id_text();
}

impl DisplayId for u32 {
    open spec fn id_text(&self) -> Seq<char> {
        decimal(*self as nat)
    }

    fn id_to_string(&self) -> (s: String) {
        let mut s = String::new();
        push_decimal(&mut s, *self);
        assert(s@ =~= decimal(*self as nat));
        s
    }
}

/// The text of an argument: numbers in decimal (a fixed-point number by its raw
/// value), a string quoted with its bytes escaped, an array as a list of bytes,
/// an object by the text of its id.
pub open spec fn argument_text<Id: DisplayId>(arg: Argument<Id>) -> Seq<char> {
    match arg {
        Argument::Int(v) => signed_decimal(v as int),
        Argument::Uint(v) => decimal(v as nat),
        Argument::Fixed(v) => signed_decimal(v as int),
        Argument::Str(b) => seq!['"'] + escaped_bytes(b@) + seq!['"'],
        Argument::Object(id) => id.id_text(),
        Argument::NewId(id) => id.id_text(),
        Argument::Array(b) => seq!['['] + byte_list_items(b@) + seq![']'],
        Argument::Fd(v) => signed_decimal(v as int),
    }
}

impl<Id: DisplayId> Argument<Id> {
    /// The text of this argument (see [`argument_text`]).
    pub fn to_display_string(&self) -> (s: String)
        ensures
            s@ == argument_text(*self),
    {
        let mut s = String::new();
        match self {
            Argument::Int(v) => push_signed_decimal(&mut s, *v),
            Argument::Uint(v) => push_decimal(&mut s, *v),
            Argument::Fixed(v) => push_signed_decimal(&mut s, *v),
            Argument::Str(b) => {
                push_char(&mut s, '"');
                push_escaped_bytes(&mut s, b.as_slice());
                push_char(&mut s, '"');
            },
            Argument::Object(id) => {
                let t = id.id_to_string();
                push_str(&mut s, t.as_str());
            },
            Argument::NewId(id) => {
                let t = id.id_to_string();
                push_str(&mut s, t.as_str());
            },
            Argument::Array(b) => push_byte_list(&mut s, b.as_slice()),
            Argument::Fd(v) => push_signed_decimal(&mut s, *v),
        }
        assert(s@ =~= argument_text(*self));
        s
    }
}

/// A type representing an error that cannot occur: it has no value.
pub type Never = core::convert::Infallible;


/// The positions, in increasing order, of the array arguments among the first
/// `n_args` C arguments of a message of this signature (arguments and signature
/// are paired up to the shorter of the two): the arguments whose memory is
/// released once the message has been handled.
pub fn array_argument_positions(signature: &[ArgumentType], n_args: usize) -> (r: Vec<usize>)
    ensures
        forall|j: int| 0 <= j < r@.len() ==> {
            &&& (#[trigger] r@[j]) < n_args
            &&& r@[j] < signature@.len()
            &&& signature@[r@[j] as int] is Array
        },
        forall|j: int, k: int| 0 <= j < k < r@.len() ==> r@[j] < r@[k],
        forall|i: int| 0 <= i < n_args && 0 <= i < signature@.len() && (#[trigger] signature@[i]) is Array
            ==> r@.contains(i as usize),
{
    let mut r: Vec<usize> = Vec::new();
    let n = if signature.len() < n_args { signature.len() } else { n_args };
    let mut i: usize = 0;
    while i < n
        invariant
            n <= n_args,
            n <= signature@.len(),
            i <= n,
            forall|j: int| 0 <= j < r@.len() ==> {
                &&& (#[trigger] r@[j]) < i
                &&& signature@[r@[j] as int] is Array
            },
            forall|j: int, k: int| 0 <= j < k < r@.len() ==> r@[j] < r@[k],
            forall|m: int| 0 <= m < i && (#[trigger] signature@[m]) is Array ==> r@.contains(m as usize),
        decreases n - i,
    {
        match signature[i] {
            ArgumentType::Array(_) => {
                let ghost prev = r@;
                r.push(i);
                assert forall|m: int| 0 <= m < i + 1 && (#[trigger] signature@[m]) is Array implies r@.contains(m as usize) by {
                    if m < i {
                        assert(prev.contains(m as usize));
                        let j = choose|j: int| 0 <= j < prev.len() && prev[j] == m as usize;
                        assert(r@[j] == m as usize);
                    } else {
                        assert(r@[r@.len() - 1] == m as usize);
                    }
                }
            },
            _ => {},
        }
        i = i + 1;
    }
    r
}


/// The types of a list of arguments, position by position.
pub open spec fn types_of<Id>(args: Seq<Argument<Id>>) -> Seq<ArgumentType> {
    args.map_values(|a: Argument<Id>| a.get_type())
}

/// A list of arguments always matches the signature made of their own types, and
/// matching a signature depends only on the variants of its entries, not on their
/// nullability.
pub proof fn lemma_arguments_match_own_types<Id>(args: Seq<Argument<Id>>, sig: Seq<ArgumentType>, other: Seq<ArgumentType>)
    requires
        sig.len() == other.len(),
        forall|i: int| 0 <= i < sig.len() ==> (#[trigger] sig[i]).same_type(other[i]),
    ensures
        matches_signature(types_of(args), args),
        matches_signature(sig, args) == matches_signature(other, args),
{
    if matches_signature(sig, args) {
        assert forall|i: int| 0 <= i < args.len() implies (#[trigger] args[i]).get_type().same_type(other[i]) by {
            assert(sig[i].same_type(other[i]));
        }
    }
    if matches_signature(other, args) {
        assert forall|i: int| 0 <= i < args.len() implies (#[trigger] args[i]).get_type().same_type(sig[i]) by {
            assert(sig[i].same_type(other[i]));
        }
    }
}

} // verus!
