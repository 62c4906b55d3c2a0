//! The decisions that the protocol scanner makes when it turns a protocol
//! description into Rust code: which items, names, types, docs and conversions
//! the generated code gets. Each decision is returned as a plan; writing the plan
//! out as tokens is left to the code generator.
use vstd::prelude::*;
use crate::names::{
    ascii_upper_text, camel_text, field_name, field_name_text, snake_to_camel, to_ascii_uppercase,
    trim, trim_text,
};
use crate::text::{decimal, push_char, push_decimal, push_str};
use crate::protocol::{matches_signature, AllowNull, Argument, ArgumentType};

verus! {

/// Which side of the protocol the code is generated for.
#[derive(Clone, Copy, PartialEq, Eq, Structural, Debug)]
pub enum Side {
    Client,
    Server,
}

/// The type of an argument in a protocol description.
#[derive(Clone, Copy, PartialEq, Eq, Structural, Debug)]
pub enum Type {
    Int,
    Uint,
    Fixed,
    String,
    Object,
    NewId,
    Array,
    Fd,
    Destructor,
}

/// An argument of a message.
#[derive(Clone, Debug)]
pub struct Arg {
    pub name: String,
    pub typ: Type,
    /// The interface of the object, for object and new-id arguments.
    pub interface: Option<String>,
    pub summary: Option<String>,
    pub description: Option<(String, String)>,
    pub allow_null: bool,
    /// The enum whose values the argument takes, as `enum` or `interface.enum`.
    pub enum_: Option<String>,
}

/// A request or an event.
#[derive(Clone, Debug)]
pub struct Message {
    pub name: String,
    /// `Some(Type::Destructor)` for a destructor.
    pub typ: Option<Type>,
    pub since: u32,
    /// A summary and a longer description.
    pub description: Option<(String, String)>,
    pub args: Vec<Arg>,
}

/// An entry of an enum.
#[derive(Clone, Debug)]
pub struct Entry {
    pub name: String,
    pub value: u32,
    pub summary: Option<String>,
    pub since: u16,
    pub description: Option<(String, String)>,
}

/// An enum of a protocol.
#[derive(Clone, Debug)]
pub struct Enum {
    pub name: String,
    pub since: u16,
    pub description: Option<(String, String)>,
    pub entries: Vec<Entry>,
    pub bitfield: bool,
}

/// An interface of a protocol.
#[derive(Clone, Debug)]
pub struct Interface {
    pub name: String,
    pub version: u32,
    pub description: Option<(String, String)>,
    pub requests: Vec<Message>,
    pub events: Vec<Message>,
    pub enums: Vec<Enum>,
}

/// The text of a documentation: a summary with a longer description, or a
/// summary alone.
#[derive(Clone, Debug)]
pub enum DocText {
    Description(String, String),
    Summary(String),
}

/// Whether the first character of a name is numeric in the sense of Unicode
/// (general category Nd, Nl or No).
pub uninterp spec fn is_numeric_char(c: char) -> bool;

/// `char::is_numeric`: whether a character's general category is a number one.
/// The ASCII digits are; the ASCII letters and the underscore are not.
#[verifier::external_body]
fn char_is_numeric(c: char) -> (r: bool)
    ensures
        r == is_numeric_char(c),
        '0' <= c && c <= '9' ==> r,
        ('a' <= c && c <= 'z') || ('A' <= c && c <= 'Z') || c == '_' ==> !r,
{
    c.is_numeric()
}

/// The name of an enum entry in Rust: its camel-case form, after an underscore
/// when its first character is numeric (a Rust name cannot start with a digit).
pub open spec fn entry_ident_text(name: Seq<char>, numeric_first: bool) -> Seq<char> {
    if numeric_first { seq!['_'] + camel_text(name) } else { camel_text(name) }
}

/// The Rust name of an enum entry, given whether its name starts with a numeric
/// character.
pub fn entry_ident_with(name: &str, numeric_first: bool) -> (r: String)
    ensures
        r@ == entry_ident_text(name@, numeric_first),
{
    let camel = snake_to_camel(name);
    if numeric_first {
        let mut out = String::new();
        push_char(&mut out, '_');
        push_str(&mut out, camel.as_str());
        assert(out@ =~= entry_ident_text(name@, numeric_first));
        out
    } else {
        camel
    }
}

/// What the name of an enum entry becomes when it starts with an ASCII
/// character: after an underscore for a digit, as it is for a letter or an
/// underscore.
pub open spec fn entry_ident_ascii(ident: Seq<char>, name: Seq<char>) -> bool {
    &&& '0' <= name[0] && name[0] <= '9' ==> ident == seq!['_'] + camel_text(name)
    &&& ('a' <= name[0] && name[0] <= 'z') || ('A' <= name[0] && name[0] <= 'Z') || name[0] == '_'
        ==> ident == camel_text(name)
}

/// The Rust name of an enum entry.
pub fn entry_ident(name: &str) -> (r: String)
    requires
        name@.len() > 0,
    ensures
        r@ == entry_ident_text(name@, is_numeric_char(name@[0])),
        entry_ident_ascii(r@, name@),
{
    let numeric = char_is_numeric(name.get_char(0));
    entry_ident_with(name, numeric)
}

/// Whether `doc` is the documentation of an enum entry: its description when it
/// has one, else its summary, else none.
pub open spec fn entry_doc_ok(doc: Option<DocText>, e: Entry) -> bool {
    match e.description {
        Some((s, l)) => doc matches Some(DocText::Description(a, b)) && a@ == s@ && b@ == l@,
        None => match e.summary {
            Some(t) => doc matches Some(DocText::Summary(x)) && x@ == t@,
            None => doc is None,
        },
    }
}

fn clone_description(d: &Option<(String, String)>) -> (r: Option<(String, String)>)
    ensures
        r == *d,
{
    match d {
        Some((a, b)) => Some((a.clone(), b.clone())),
        None => None,
    }
}

/// The plan of an enum entry.
#[derive(Clone, Debug)]
pub struct EntryPlan {
    /// The name of the variant, or of the flag for a bitfield.
    pub ident: String,
    pub value: u32,
    pub doc: Option<DocText>,
}

/// The plan of an enum: a bitfield becomes a set of flags, another enum a
/// `u32`-backed enum; both convert from and to `u32`.
#[derive(Clone, Debug)]
pub struct EnumPlan {
    pub ident: String,
    pub doc: Option<(String, String)>,
    pub bitfield: bool,
    pub entries: Vec<EntryPlan>,
}

/// Whether `p` is the plan of entry `e`.
pub open spec fn entry_plan_ok(p: EntryPlan, e: Entry) -> bool {
    &&& p.ident@ == entry_ident_text(e.name@, is_numeric_char(e.name@[0]))
    &&& entry_ident_ascii(p.ident@, e.name@)
    &&& p.value == e.value
    &&& entry_doc_ok(p.doc, e)
}

/// Plans the code of an enum.
pub fn plan_enum(e: &Enum) -> (p: EnumPlan)
    requires
        forall|i: int| 0 <= i < e.entries@.len() ==> (#[trigger] e.entries@[i]).name@.len() > 0,
    ensures
        p.ident@ == camel_text(e.name@),
        p.doc == e.description,
        p.bitfield == e.bitfield,
        p.entries@.len() == e.entries@.len(),
        forall|i: int| 0 <= i < e.entries@.len() ==> entry_plan_ok(#[trigger] p.entries@[i], e.entries@[i]),
{
    let mut entries: Vec<EntryPlan> = Vec::new();
    let n = e.entries.len();
    let mut i: usize = 0;
    while i < n
        invariant
            n == e.entries@.len(),
            i <= n,
            forall|k: int| 0 <= k < e.entries@.len() ==> (#[trigger] e.entries@[k]).name@.len() > 0,
            entries@.len() == i,
            forall|k: int| 0 <= k < i ==> entry_plan_ok(#[trigger] entries@[k], e.entries@[k]),
        decreases n - i,
    {
        let entry = &e.entries[i];
        let doc = match &entry.description {
            Some((s, l)) => Some(DocText::Description(s.clone(), l.clone())),
            None => match &entry.summary {
                Some(t) => Some(DocText::Summary(t.clone())),
                None => None,
            },
        };
        let ident = entry_ident(entry.name.as_str());
        entries.push(EntryPlan { ident, value: entry.value, doc });
        i = i + 1;
    }
    EnumPlan {
        ident: snake_to_camel(e.name.as_str()),
        doc: clone_description(&e.description),
        bitfield: e.bitfield,
        entries,
    }
}

/// A constant that holds the version since which a message exists.
#[derive(Clone, Debug)]
pub struct SinceConstant {
    pub name: String,
    pub since: u32,
}

/// The name of the constant for a message: `<prefix>_<NAME>_SINCE`.
pub open spec fn since_constant_text(prefix: Seq<char>, name: Seq<char>) -> Seq<char> {
    prefix + seq!['_'] + ascii_upper_text(name) + "_SINCE"@
}

fn since_constant(prefix: &str, msg: &Message) -> (c: SinceConstant)
    ensures
        c.name@ == since_constant_text(prefix@, msg.name@),
        c.since == msg.since,
{
    let mut name = String::new();
    push_str(&mut name, prefix);
    push_char(&mut name, '_');
    let upper = to_ascii_uppercase(msg.name.as_str());
    push_str(&mut name, upper.as_str());
    push_str(&mut name, "_SINCE");
    assert(name@ =~= since_constant_text(prefix@, msg.name@));
    SinceConstant { name, since: msg.since }
}

/// The constants that give the version since which each request (`REQ_..`) and
/// each event (`EVT_..`) exists, requests first, each list in its order.
pub fn gen_since_constants(requests: &[Message], events: &[Message]) -> (r: Vec<SinceConstant>)
    ensures
        r@.len() == requests@.len() + events@.len(),
        forall|i: int| 0 <= i < requests@.len() ==> {
            &&& (#[trigger] r@[i]).name@ == since_constant_text("REQ"@, requests@[i].name@)
            &&& r@[i].since == requests@[i].since
        },
        forall|i: int| 0 <= i < events@.len() ==> {
            &&& (#[trigger] r@[requests@.len() + i]).name@ == since_constant_text("EVT"@, events@[i].name@)
            &&& r@[requests@.len() + i].since == events@[i].since
        },
{
    let mut r: Vec<SinceConstant> = Vec::new();
    let mut i: usize = 0;
    while i < requests.len()
        invariant
            i <= requests@.len(),
            r@.len() == i,
            forall|k: int| 0 <= k < i ==> {
                &&& (#[trigger] r@[k]).name@ == since_constant_text("REQ"@, requests@[k].name@)
                &&& r@[k].since == requests@[k].since
            },
        decreases requests@.len() - i,
    {
        r.push(since_constant("REQ", &requests[i]));
        i = i + 1;
    }
    let mut j: usize = 0;
    while j < events.len()
        invariant
            j <= events@.len(),
            r@.len() == requests@.len() + j,
            forall|k: int| 0 <= k < requests@.len() ==> {
                &&& (#[trigger] r@[k]).name@ == since_constant_text("REQ"@, requests@[k].name@)
                &&& r@[k].since == requests@[k].since
            },
            forall|k: int| 0 <= k < j ==> {
                &&& (#[trigger] r@[requests@.len() + k]).name@ == since_constant_text("EVT"@, events@[k].name@)
                &&& r@[requests@.len() + k].since == events@[k].since
            },
        decreases events@.len() - j,
    {
        let ghost prev = r@;
        r.push(since_constant("EVT", &events[j]));
        proof {
            assert forall|k: int| 0 <= k < j + 1 implies {
                &&& (#[trigger] r@[requests@.len() + k]).name@ == since_constant_text("EVT"@, events@[k].name@)
                &&& r@[requests@.len() + k].since == events@[k].since
            } by {
                if k < j {
                    assert(r@[requests@.len() + k] == prev[requests@.len() + k]);
                }
            }
        }
        j = j + 1;
    }
    r
}


/// The characters of `s` before the first `c` (all of them when there is none).
pub open spec fn take_until(s: Seq<char>, c: char) -> Seq<char>
    decreases s.len(),
{
    if s.len() == 0 {
        seq![]
    } else if s[0] == c {
        seq![]
    } else {
        seq![s[0]] + take_until(s.drop_first(), c)
    }
}

/// The characters of `s` after its first `c`, if it has one.
pub open spec fn after_first(s: Seq<char>, c: char) -> Option<Seq<char>>
    decreases s.len(),
{
    if s.len() == 0 {
        None
    } else if s[0] == c {
        Some(s.drop_first())
    } else {
        after_first(s.drop_first(), c)
    }
}

/// Splits `s` at its first `c`: what comes before, and what comes after if
/// there is a `c`.
pub fn split_once_char(s: &str, c: char) -> (r: (String, Option<String>))
    ensures
        r.0@ == take_until(s@, c),
        match after_first(s@, c) {
            Some(rest) => r.1 matches Some(t) && t@ == rest,
            None => r.1 is None,
        },
{
    let n = s.unicode_len();
    let mut before = String::new();
    let mut i: usize = 0;
    assert(s@.skip(0) =~= s@);
    while i < n && s.get_char(i) != c
        invariant
            n == s@.len(),
            i <= n,
            take_until(s@, c) == before@ + take_until(s@.skip(i as int), c),
            after_first(s@, c) == after_first(s@.skip(i as int), c),
        decreases n - i,
    {
        let ch = s.get_char(i);
        let ghost rest = s@.skip(i as int);
        assert(rest.drop_first() =~= s@.skip(i + 1));
        assert(rest[0] == ch);
        push_char(&mut before, ch);
        assert(before@ + take_until(s@.skip(i + 1), c) =~= take_until(s@, c));
        i = i + 1;
    }
    if i == n {
        assert(s@.skip(n as int) =~= Seq::<char>::empty());
        assert(before@ =~= take_until(s@, c));
        (before, None)
    } else {
        let ghost rest = s@.skip(i as int);
        assert(rest[0] == c);
        assert(before@ =~= take_until(s@, c));
        let mut after = String::new();
        let mut k: usize = i + 1;
        while k < n
            invariant
                n == s@.len(),
                i < k <= n,
                after@ == s@.subrange(i + 1, k as int),
            decreases n - k,
        {
            push_char(&mut after, s.get_char(k));
            assert(after@ =~= s@.subrange(i + 1, k + 1));
            k = k + 1;
        }
        assert(rest.drop_first() =~= s@.subrange(i + 1, n as int));
        (before, Some(after))
    }
}

/// The module of a reference to an enum: `iface` for `iface.name`, none for a
/// bare `name`.
pub open spec fn rel_module(s: Seq<char>) -> Option<Seq<char>> {
    match after_first(s, '.') {
        Some(_) => Some(take_until(s, '.')),
        None => None,
    }
}

/// The Rust type of a reference to an enum: the camel-case form of the part
/// after the first dot, up to the next one (of the whole name without a dot).
pub open spec fn rel_type(s: Seq<char>) -> Seq<char> {
    match after_first(s, '.') {
        Some(rest) => camel_text(take_until(rest, '.')),
        None => camel_text(s),
    }
}

/// The type of the field that holds an argument in a message enum.
#[derive(Clone, Debug)]
pub enum FieldType {
    /// `WEnum<..>` of the enum, with the module it lives in when it is another
    /// interface's.
    WEnum { module: Option<String>, ty_name: String },
    /// `u32`
    U32,
    /// `i32`
    I32,
    /// `f64`
    F64,
    /// `String`
    Text,
    /// `Vec<u8>`
    Bytes,
    /// a file descriptor
    Fd,
    /// the proxy or resource type of an interface, in that interface's module
    Proxy { module: String, ty_name: String },
    /// a bare object id of the given side
    ObjectId(Side),
    /// an interface with a version, for a new object of no fixed interface that a
    /// client creates
    InterfaceVersion,
    /// an interface name, a version and an object id, for a new object of no fixed
    /// interface
    Bind(Side),
}

/// A field of a message variant: its name, its type, and whether it may be
/// absent (`Option<..>`).
#[derive(Clone, Debug)]
pub struct FieldPlan {
    pub name: String,
    pub ty: FieldType,
    pub optional: bool,
}

/// A variant of a message enum: its name, its documentation and its fields.
#[derive(Clone, Debug)]
pub struct VariantPlan {
    pub name: String,
    pub docs: String,
    pub fields: Vec<FieldPlan>,
}

/// Whether an argument has no field: a new object of a fixed interface that a
/// client sends, whose id the library allocates.
pub open spec fn skips_field(arg: Arg, side: Side, receiver: bool) -> bool {
    &&& arg.enum_ is None
    &&& arg.typ == Type::NewId
    &&& !receiver
    &&& side == Side::Client
    &&& arg.interface is Some
}

/// Whether `t` is the type of the field of `arg` (which has a field).
pub open spec fn field_type_ok(t: FieldType, arg: Arg, side: Side, receiver: bool) -> bool {
    match arg.enum_ {
        Some(e) => t matches FieldType::WEnum { module, ty_name } && ty_name@ == rel_type(e@) && match rel_module(e@) {
            Some(m) => module matches Some(x) && x@ == m,
            None => module is None,
        },
        None => match arg.typ {
            Type::Uint => t is U32,
            Type::Int => t is I32,
            Type::Fixed => t is F64,
            Type::String => t is Text,
            Type::Array => t is Bytes,
            Type::Fd => t is Fd,
            Type::Object => match arg.interface {
                Some(i) => t matches FieldType::Proxy { module, ty_name } && module@ == i@ && ty_name@ == camel_text(i@),
                None => t == FieldType::ObjectId(side),
            },
            Type::NewId => if !receiver && side == Side::Client {
                t is InterfaceVersion
            } else {
                match arg.interface {
                    Some(i) => t matches FieldType::Proxy { module, ty_name } && module@ == i@ && ty_name@ == camel_text(i@),
                    None => t == FieldType::Bind(side),
                }
            },
            Type::Destructor => false,
        },
    }
}

/// Whether `p` is the field of `arg`.
pub open spec fn field_plan_ok(p: FieldPlan, arg: Arg, side: Side, receiver: bool) -> bool {
    &&& p.name@ == field_name_text(arg.name@)
    &&& field_type_ok(p.ty, arg, side, receiver)
    &&& p.optional == arg.allow_null
}

/// Whether `fields` are the fields of `args`, in order, the arguments without a
/// field left out.
pub open spec fn fields_ok(fields: Seq<FieldPlan>, args: Seq<Arg>, side: Side, receiver: bool) -> bool
    decreases args.len(),
{
    if args.len() == 0 {
        fields.len() == 0
    } else if skips_field(args.last(), side, receiver) {
        fields_ok(fields, args.drop_last(), side, receiver)
    } else {
        &&& fields.len() > 0
        &&& field_plan_ok(fields.last(), args.last(), side, receiver)
        &&& fields_ok(fields.drop_last(), args.drop_last(), side, receiver)
    }
}

/// No argument has the type of a destructor.
pub open spec fn args_well_typed(args: Seq<Arg>) -> bool {
    forall|i: int| 0 <= i < args.len() ==> (#[trigger] args[i]).typ != Type::Destructor
}

/// Every argument has a field type: an argument of an enum takes the enum's
/// type, whatever its wire type; the others do not have the type of a
/// destructor.
pub open spec fn fields_well_typed(args: Seq<Arg>) -> bool {
    forall|i: int| 0 <= i < args.len() ==> ((#[trigger] args[i]).enum_ is None ==> args[i].typ != Type::Destructor)
}

/// The documentation of a message variant: the summary and the trimmed
/// description, a note when the message is a destructor, and the version since
/// which it exists when that is above 1.
pub open spec fn message_docs_text(msg: Message, receiver: bool) -> Seq<char> {
    let d1 = match msg.description {
        Some((short, long)) => short@ + "\n\n"@ + trim_text(long@) + "\n"@,
        None => seq![],
    };
    let d2 = if msg.typ == Some(Type::Destructor) {
        "\nThis is a destructor, once "@ + (if receiver { "received"@ } else { "sent"@ })
            + " this object cannot be used any longer."@
    } else {
        seq![]
    };
    let d3 = if msg.since > 1 {
        "\nOnly available since version "@ + decimal(msg.since as nat) + " of the interface"@
    } else {
        seq![]
    };
    d1 + d2 + d3
}

/// The documentation of a message variant (see [`message_docs_text`]).
pub fn message_docs(msg: &Message, receiver: bool) -> (r: String)
    ensures
        r@ == message_docs_text(*msg, receiver),
{
    let mut docs = String::new();
    match &msg.description {
        Some((short, long)) => {
            push_str(&mut docs, short.as_str());
            push_str(&mut docs, "\n\n");
            let t = trim(long.as_str());
            push_str(&mut docs, t.as_str());
            push_str(&mut docs, "\n");
        },
        None => {},
    }
    if msg.typ == Some(Type::Destructor) {
        push_str(&mut docs, "\nThis is a destructor, once ");
        if receiver {
            push_str(&mut docs, "received");
        } else {
            push_str(&mut docs, "sent");
        }
        push_str(&mut docs, " this object cannot be used any longer.");
    }
    if msg.since > 1 {
        push_str(&mut docs, "\nOnly available since version ");
        push_decimal(&mut docs, msg.since);
        push_str(&mut docs, " of the interface");
    }
    assert(docs@ =~= message_docs_text(*msg, receiver));
    docs
}

fn proxy_type(iface: &String) -> (t: FieldType)
    ensures
        t matches FieldType::Proxy { module, ty_name } && module@ == iface@ && ty_name@ == camel_text(iface@),
{
    FieldType::Proxy { module: iface.clone(), ty_name: snake_to_camel(iface.as_str()) }
}

/// The type of the field of an argument that has one.
pub fn field_type(arg: &Arg, side: Side, receiver: bool) -> (t: FieldType)
    requires
        arg.enum_ is None ==> arg.typ != Type::Destructor,
        !skips_field(*arg, side, receiver),
    ensures
        field_type_ok(t, *arg, side, receiver),
{
    match &arg.enum_ {
        Some(e) => {
            let (before, after) = split_once_char(e.as_str(), '.');
            match after {
                Some(rest) => {
                    let (name, _) = split_once_char(rest.as_str(), '.');
                    FieldType::WEnum { module: Some(before), ty_name: snake_to_camel(name.as_str()) }
                },
                None => FieldType::WEnum { module: None, ty_name: snake_to_camel(e.as_str()) },
            }
        },
        None => match arg.typ {
            Type::Uint => FieldType::U32,
            Type::Int => FieldType::I32,
            Type::Fixed => FieldType::F64,
            Type::String => FieldType::Text,
            Type::Array => FieldType::Bytes,
            Type::Fd => FieldType::Fd,
            Type::Object => match &arg.interface {
                Some(i) => proxy_type(i),
                None => FieldType::ObjectId(side),
            },
            Type::NewId => {
                if !receiver && side == Side::Client {
                    FieldType::InterfaceVersion
                } else {
                    match &arg.interface {
                        Some(i) => proxy_type(i),
                        None => FieldType::Bind(side),
                    }
                }
            },
            Type::Destructor => FieldType::U32,
        },
    }
}

/// Plans the variant of a message in the message enum of its interface: its
/// camel-case name, its documentation, and one field per argument but for the
/// new objects of a fixed interface that a client sends.
pub fn plan_message_variant(msg: &Message, side: Side, receiver: bool) -> (p: VariantPlan)
    requires
        fields_well_typed(msg.args@),
    ensures
        p.name@ == camel_text(msg.name@),
        p.docs@ == message_docs_text(*msg, receiver),
        fields_ok(p.fields@, msg.args@, side, receiver),
{
    let mut fields: Vec<FieldPlan> = Vec::new();
    let n = msg.args.len();
    let mut i: usize = 0;
    while i < n
        invariant
            n == msg.args@.len(),
            i <= n,
            fields_well_typed(msg.args@),
            fields_ok(fields@, msg.args@.take(i as int), side, receiver),
        decreases n - i,
    {
        let arg = &msg.args[i];
        assert(msg.args@.take(i + 1).drop_last() =~= msg.args@.take(i as int));
        assert(msg.args@.take(i + 1).last() == *arg);
        assert(arg.enum_ is None ==> arg.typ != Type::Destructor);
        let skip = arg.enum_.is_none() && arg.typ == Type::NewId && !receiver && side == Side::Client
            && arg.interface.is_some();
        if !skip {
            let ty = field_type(arg, side, receiver);
            let name = field_name(arg.name.as_str());
            let ghost prev = fields@;
            fields.push(FieldPlan { name, ty, optional: arg.allow_null });
            assert(fields@.drop_last() =~= prev);
        }
        i = i + 1;
    }
    assert(msg.args@.take(n as int) =~= msg.args@);
    VariantPlan { name: snake_to_camel(msg.name.as_str()), docs: message_docs(msg, receiver), fields }
}

/// Plans the message enum of an interface: one variant per message, in order.
pub fn gen_message_enum(side: Side, receiver: bool, messages: &[Message]) -> (r: Vec<VariantPlan>)
    requires
        forall|i: int| 0 <= i < messages@.len() ==> fields_well_typed(#[trigger] messages@[i].args@),
    ensures
        r@.len() == messages@.len(),
        forall|i: int| 0 <= i < messages@.len() ==> {
            &&& (#[trigger] r@[i]).name@ == camel_text(messages@[i].name@)
            &&& r@[i].docs@ == message_docs_text(messages@[i], receiver)
            &&& fields_ok(r@[i].fields@, messages@[i].args@, side, receiver)
        },
{
    let mut r: Vec<VariantPlan> = Vec::new();
    let mut i: usize = 0;
    while i < messages.len()
        invariant
            i <= messages@.len(),
            forall|k: int| 0 <= k < messages@.len() ==> fields_well_typed(#[trigger] messages@[k].args@),
            r@.len() == i,
            forall|k: int| 0 <= k < i ==> {
                &&& (#[trigger] r@[k]).name@ == camel_text(messages@[k].name@)
                &&& r@[k].docs@ == message_docs_text(messages@[k], receiver)
                &&& fields_ok(r@[k].fields@, messages@[k].args@, side, receiver)
            },
        decreases messages@.len() - i,
    {
        r.push(plan_message_variant(&messages[i], side, receiver));
        i = i + 1;
    }
    r
}


/// The variant of a wire argument.
#[derive(Clone, Copy, PartialEq, Eq, Structural, Debug)]
pub enum ArgKind {
    Int,
    Uint,
    Fixed,
    Str,
    Object,
    NewId,
    Array,
    Fd,
}

/// The wire variant of an argument type (a destructor is no argument type).
pub open spec fn kind_of(t: Type) -> ArgKind {
    match t {
        Type::Int => ArgKind::Int,
        Type::Uint => ArgKind::Uint,
        Type::Fixed => ArgKind::Fixed,
        Type::String => ArgKind::Str,
        Type::Object => ArgKind::Object,
        Type::NewId => ArgKind::NewId,
        Type::Array => ArgKind::Array,
        Type::Fd => ArgKind::Fd,
        Type::Destructor => ArgKind::Int,
    }
}

fn arg_kind(t: Type) -> (k: ArgKind)
    ensures
        k == kind_of(t),
{
    match t {
        Type::Int => ArgKind::Int,
        Type::Uint => ArgKind::Uint,
        Type::Fixed => ArgKind::Fixed,
        Type::String => ArgKind::Str,
        Type::Object => ArgKind::Object,
        Type::NewId => ArgKind::NewId,
        Type::Array => ArgKind::Array,
        Type::Fd => ArgKind::Fd,
        Type::Destructor => ArgKind::Int,
    }
}

/// How a parsed wire argument becomes the field of a message.
#[derive(Clone, Debug)]
pub enum Conversion {
    /// into an enum value, through its `u32`
    FromEnum,
    /// the number as it is
    Copy,
    /// a fixed-point number divided by 256 into a float
    FixedToFloat,
    /// a string decoded from its bytes, the empty string read as absent when the
    /// field is optional
    Text { nullable: bool },
    /// an object: the proxy or resource of `created` (interface module and type)
    /// from its id, or the bare id; the null id read as absent when optional
    Object { created: Option<(String, String)>, nullable: bool },
    /// an array of bytes, the empty one read as absent when optional
    Bytes { nullable: bool },
}

/// The parsing of one argument: the name it is bound to, the wire variant it
/// must have, and its conversion.
#[derive(Clone, Debug)]
pub struct ParseArg {
    pub name: String,
    pub kind: ArgKind,
    pub conversion: Conversion,
}

/// The parsing of one message: the opcode it answers to, the variant it builds,
/// and its arguments in order.
#[derive(Clone, Debug)]
pub struct ParseArm {
    pub opcode: u16,
    pub variant: String,
    pub args: Vec<ParseArg>,
}

/// Whether `created` names the interface of an object argument: its module and
/// its camel-case type when the argument has an interface.
pub open spec fn created_ok(created: Option<(String, String)>, arg: Arg) -> bool {
    match arg.interface {
        Some(i) => created matches Some((m, t)) && m@ == i@ && t@ == camel_text(i@),
        None => created is None,
    }
}

/// Whether `c` converts `arg`.
pub open spec fn conversion_ok(c: Conversion, arg: Arg) -> bool {
    if arg.enum_ is Some {
        c is FromEnum
    } else {
        match arg.typ {
            Type::Uint | Type::Int | Type::Fd => c is Copy,
            Type::Fixed => c is FixedToFloat,
            Type::String => c == Conversion::Text { nullable: arg.allow_null },
            Type::Object | Type::NewId => c matches Conversion::Object { created, nullable }
                && nullable == arg.allow_null && created_ok(created, arg),
            Type::Array => c == Conversion::Bytes { nullable: arg.allow_null },
            Type::Destructor => false,
        }
    }
}

/// Whether `p` parses `arg`.
pub open spec fn parse_arg_ok(p: ParseArg, arg: Arg) -> bool {
    &&& p.name@ == field_name_text(arg.name@)
    &&& p.kind == kind_of(arg.typ)
    &&& conversion_ok(p.conversion, arg)
}

/// Whether `arm` parses message `msg` of opcode `opcode`.
pub open spec fn parse_arm_ok(arm: ParseArm, msg: Message, opcode: int) -> bool {
    &&& arm.opcode == opcode as u16
    &&& arm.variant@ == camel_text(msg.name@)
    &&& arm.args@.len() == msg.args@.len()
    &&& forall|j: int| 0 <= j < msg.args@.len() ==> parse_arg_ok(#[trigger] arm.args@[j], msg.args@[j])
}

fn created_of(arg: &Arg) -> (c: Option<(String, String)>)
    ensures
        created_ok(c, *arg),
{
    match &arg.interface {
        Some(i) => Some((i.clone(), snake_to_camel(i.as_str()))),
        None => None,
    }
}

fn conversion_of(arg: &Arg) -> (c: Conversion)
    requires
        arg.typ != Type::Destructor,
    ensures
        conversion_ok(c, *arg),
{
    if arg.enum_.is_some() {
        Conversion::FromEnum
    } else {
        match arg.typ {
            Type::Uint | Type::Int | Type::Fd => Conversion::Copy,
            Type::Fixed => Conversion::FixedToFloat,
            Type::String => Conversion::Text { nullable: arg.allow_null },
            Type::Object | Type::NewId => Conversion::Object { created: created_of(arg), nullable: arg.allow_null },
            Type::Array => Conversion::Bytes { nullable: arg.allow_null },
            Type::Destructor => Conversion::Copy,
        }
    }
}

fn plan_parse_arm(msg: &Message, opcode: usize) -> (arm: ParseArm)
    requires
        args_well_typed(msg.args@),
    ensures
        parse_arm_ok(arm, *msg, opcode as int),
{
    let mut args: Vec<ParseArg> = Vec::new();
    let mut j: usize = 0;
    while j < msg.args.len()
        invariant
            j <= msg.args@.len(),
            args_well_typed(msg.args@),
            args@.len() == j,
            forall|k: int| 0 <= k < j ==> parse_arg_ok(#[trigger] args@[k], msg.args@[k]),
        decreases msg.args@.len() - j,
    {
        let arg = &msg.args[j];
        assert(arg.typ != Type::Destructor);
        args.push(ParseArg {
            name: field_name(arg.name.as_str()),
            kind: arg_kind(arg.typ),
            conversion: conversion_of(arg),
        });
        j = j + 1;
    }
    ParseArm { opcode: opcode as u16, variant: snake_to_camel(msg.name.as_str()), args }
}

/// The messages that one side parses: a client parses events, a server requests.
pub open spec fn parsed_messages(interface: Interface, side: Side) -> Seq<Message> {
    match side {
        Side::Client => interface.events@,
        Side::Server => interface.requests@,
    }
}

/// The messages that one side writes: a client writes requests, a server events.
pub open spec fn written_messages(interface: Interface, side: Side) -> Seq<Message> {
    match side {
        Side::Client => interface.requests@,
        Side::Server => interface.events@,
    }
}

/// Plans the parsing of the messages that `side` receives on `interface`: one
/// arm per message, the opcode being its position. A message of another opcode,
/// or whose arguments do not have the planned variants, is a bad message.
pub fn gen_parse_body(interface: &Interface, side: Side) -> (r: Vec<ParseArm>)
    requires
        forall|i: int| 0 <= i < parsed_messages(*interface, side).len()
            ==> args_well_typed(#[trigger] parsed_messages(*interface, side)[i].args@),
    ensures
        r@.len() == parsed_messages(*interface, side).len(),
        forall|i: int| 0 <= i < r@.len() ==> parse_arm_ok(#[trigger] r@[i], parsed_messages(*interface, side)[i], i),
{
    let msgs = match side {
        Side::Client => &interface.events,
        Side::Server => &interface.requests,
    };
    let mut r: Vec<ParseArm> = Vec::new();
    let mut i: usize = 0;
    while i < msgs.len()
        invariant
            msgs@ == parsed_messages(*interface, side),
            i <= msgs@.len(),
            forall|k: int| 0 <= k < msgs@.len() ==> args_well_typed(#[trigger] msgs@[k].args@),
            r@.len() == i,
            forall|k: int| 0 <= k < i ==> parse_arm_ok(#[trigger] r@[k], msgs@[k], k),
        decreases msgs@.len() - i,
    {
        r.push(plan_parse_arm(&msgs[i], i));
        i = i + 1;
    }
    r
}

/// How an argument is written into a message.
#[derive(Clone, Debug)]
pub enum WriteKind {
    /// a signed integer
    Int,
    /// a signed integer from an enum value through its `u32`
    IntFromEnum,
    /// an unsigned integer
    Uint,
    /// an unsigned integer from an enum value
    UintFromEnum,
    /// a file descriptor
    Fd,
    /// a float times 256, as fixed point
    Fixed,
    /// the id of an object
    Object,
    /// the id of an object, or the null id when absent
    ObjectOrNull,
    /// an array of bytes
    Array,
    /// an array of bytes, or an empty one when absent
    ArrayOrEmpty,
    /// a string
    Str,
    /// a string, or an empty one when absent
    StrOrEmpty,
    /// a placeholder for the new object of the given interface (module and type)
    /// that a client creates, at the version of its creator
    Placeholder { module: String, ty_name: String },
    /// the interface name, the version, and a placeholder, for a new object of no
    /// fixed interface that a client creates
    DynamicNewId,
    /// the id of a new object
    NewId,
    /// the id of a new object, or the null id when absent
    NewIdOrNull,
}

/// The writing of one argument: the name it is read from and how it is written.
#[derive(Clone, Debug)]
pub struct WriteArg {
    pub name: String,
    pub kind: WriteKind,
}

/// The writing of one message: the variant it matches, the names it binds, its
/// opcode and its arguments in order.
#[derive(Clone, Debug)]
pub struct WriteArm {
    pub opcode: u16,
    pub variant: String,
    pub bound: Vec<String>,
    pub args: Vec<WriteArg>,
}

/// Whether an argument is bound by the pattern of its message: all are but the
/// new objects of a fixed interface that a client creates.
pub open spec fn is_bound(arg: Arg, side: Side) -> bool {
    !(arg.typ == Type::NewId && arg.interface is Some && side == Side::Client)
}

/// Whether `k` writes `arg` on `side`.
pub open spec fn write_kind_ok(k: WriteKind, arg: Arg, side: Side) -> bool {
    match arg.typ {
        Type::Int => k == (if arg.enum_ is Some { WriteKind::IntFromEnum } else { WriteKind::Int }),
        Type::Uint => k == (if arg.enum_ is Some { WriteKind::UintFromEnum } else { WriteKind::Uint }),
        Type::Fd => k is Fd,
        Type::Fixed => k is Fixed,
        Type::Object => k == (if arg.allow_null { WriteKind::ObjectOrNull } else { WriteKind::Object }),
        Type::Array => k == (if arg.allow_null { WriteKind::ArrayOrEmpty } else { WriteKind::Array }),
        Type::String => k == (if arg.allow_null { WriteKind::StrOrEmpty } else { WriteKind::Str }),
        Type::NewId => if side == Side::Client {
            match arg.interface {
                Some(i) => k matches WriteKind::Placeholder { module, ty_name } && module@ == i@ && ty_name@ == camel_text(i@),
                None => k is DynamicNewId,
            }
        } else {
            k == (if arg.allow_null { WriteKind::NewIdOrNull } else { WriteKind::NewId })
        },
        Type::Destructor => false,
    }
}

/// Whether `bound` holds the field names of the arguments that the pattern binds,
/// in order.
pub open spec fn bound_ok(bound: Seq<String>, args: Seq<Arg>, side: Side) -> bool
    decreases args.len(),
{
    if args.len() == 0 {
        bound.len() == 0
    } else if !is_bound(args.last(), side) {
        bound_ok(bound, args.drop_last(), side)
    } else {
        &&& bound.len() > 0
        &&& bound.last()@ == field_name_text(args.last().name@)
        &&& bound_ok(bound.drop_last(), args.drop_last(), side)
    }
}

/// Whether `arm` writes message `msg` of opcode `opcode` on `side`.
pub open spec fn write_arm_ok(arm: WriteArm, msg: Message, opcode: int, side: Side) -> bool {
    &&& arm.opcode == opcode as u16
    &&& arm.variant@ == camel_text(msg.name@)
    &&& bound_ok(arm.bound@, msg.args@, side)
    &&& arm.args@.len() == msg.args@.len()
    &&& forall|j: int| 0 <= j < msg.args@.len() ==> {
        &&& (#[trigger] arm.args@[j]).name@ == field_name_text(msg.args@[j].name@)
        &&& write_kind_ok(arm.args@[j].kind, msg.args@[j], side)
    }
}

fn write_kind(arg: &Arg, side: Side) -> (k: WriteKind)
    requires
        arg.typ != Type::Destructor,
    ensures
        write_kind_ok(k, *arg, side),
{
    match arg.typ {
        Type::Int => if arg.enum_.is_some() { WriteKind::IntFromEnum } else { WriteKind::Int },
        Type::Uint => if arg.enum_.is_some() { WriteKind::UintFromEnum } else { WriteKind::Uint },
        Type::Fd => WriteKind::Fd,
        Type::Fixed => WriteKind::Fixed,
        Type::Object => if arg.allow_null { WriteKind::ObjectOrNull } else { WriteKind::Object },
        Type::Array => if arg.allow_null { WriteKind::ArrayOrEmpty } else { WriteKind::Array },
        Type::String => if arg.allow_null { WriteKind::StrOrEmpty } else { WriteKind::Str },
        Type::NewId => {
            if side == Side::Client {
                match &arg.interface {
                    Some(i) => WriteKind::Placeholder { module: i.clone(), ty_name: snake_to_camel(i.as_str()) },
                    None => WriteKind::DynamicNewId,
                }
            } else if arg.allow_null {
                WriteKind::NewIdOrNull
            } else {
                WriteKind::NewId
            }
        },
        Type::Destructor => WriteKind::Int,
    }
}

fn plan_write_arm(msg: &Message, opcode: usize, side: Side) -> (arm: WriteArm)
    requires
        args_well_typed(msg.args@),
    ensures
        write_arm_ok(arm, *msg, opcode as int, side),
{
    let mut bound: Vec<String> = Vec::new();
    let mut args: Vec<WriteArg> = Vec::new();
    let n = msg.args.len();
    let mut j: usize = 0;
    while j < n
        invariant
            n == msg.args@.len(),
            j <= n,
            args_well_typed(msg.args@),
            bound_ok(bound@, msg.args@.take(j as int), side),
            args@.len() == j,
            forall|k: int| 0 <= k < j ==> {
                &&& (#[trigger] args@[k]).name@ == field_name_text(msg.args@[k].name@)
                &&& write_kind_ok(args@[k].kind, msg.args@[k], side)
            },
        decreases n - j,
    {
        let arg = &msg.args[j];
        assert(msg.args@.take(j + 1).drop_last() =~= msg.args@.take(j as int));
        assert(msg.args@.take(j + 1).last() == *arg);
        assert(arg.typ != Type::Destructor);
        if !(arg.typ == Type::NewId && arg.interface.is_some() && side == Side::Client) {
            let ghost prev = bound@;
            bound.push(field_name(arg.name.as_str()));
            assert(bound@.drop_last() =~= prev);
        }
        args.push(WriteArg { name: field_name(arg.name.as_str()), kind: write_kind(arg, side) });
        j = j + 1;
    }
    assert(msg.args@.take(n as int) =~= msg.args@);
    WriteArm { opcode: opcode as u16, variant: snake_to_camel(msg.name.as_str()), bound, args }
}

/// Plans the writing of the messages that `side` sends on `interface`: one arm
/// per message, the opcode being its position.
pub fn gen_write_body(interface: &Interface, side: Side) -> (r: Vec<WriteArm>)
    requires
        forall|i: int| 0 <= i < written_messages(*interface, side).len()
            ==> args_well_typed(#[trigger] written_messages(*interface, side)[i].args@),
    ensures
        r@.len() == written_messages(*interface, side).len(),
        forall|i: int| 0 <= i < r@.len() ==> write_arm_ok(#[trigger] r@[i], written_messages(*interface, side)[i], i, side),
{
    let msgs = match side {
        Side::Client => &interface.requests,
        Side::Server => &interface.events,
    };
    let mut r: Vec<WriteArm> = Vec::new();
    let mut i: usize = 0;
    while i < msgs.len()
        invariant
            msgs@ == written_messages(*interface, side),
            i <= msgs@.len(),
            forall|k: int| 0 <= k < msgs@.len() ==> args_well_typed(#[trigger] msgs@[k].args@),
            r@.len() == i,
            forall|k: int| 0 <= k < i ==> write_arm_ok(#[trigger] r@[k], msgs@[k], k, side),
        decreases msgs@.len() - i,
    {
        r.push(plan_write_arm(&msgs[i], i, side));
        i = i + 1;
    }
    r
}


/// The field of an argument is an interface and a version exactly for a new
/// object of no fixed interface that a client sends; a new object of an
/// interface that is received, on either side, gets the proxy or resource type
/// of that interface.
pub proof fn lemma_field_type_of_new_objects(t: FieldType, arg: Arg, side: Side, receiver: bool)
    requires
        field_type_ok(t, arg, side, receiver),
        !skips_field(arg, side, receiver),
    ensures
        t is InterfaceVersion <==> (arg.enum_ is None && arg.typ == Type::NewId && !receiver && side == Side::Client
            && arg.interface is None),
        receiver && arg.enum_ is None && arg.typ == Type::NewId ==> match arg.interface {
            Some(i) => t matches FieldType::Proxy { module, ty_name } && module@ == i@ && ty_name@ == camel_text(i@),
            None => t == FieldType::Bind(side),
        },
{
}

/// Each argument of a received message gets a field, in order, of the type of
/// that argument; no field is an interface and a version, and an object or new
/// object of an interface gets the proxy or resource type of that interface.
pub proof fn lemma_received_message_fields(fields: Seq<FieldPlan>, args: Seq<Arg>, side: Side)
    requires
        fields_ok(fields, args, side, true),
    ensures
        fields.len() == args.len(),
        forall|j: int| 0 <= j < args.len() ==> field_plan_ok(#[trigger] fields[j], args[j], side, true),
        forall|j: int| 0 <= j < args.len() ==> !((#[trigger] fields[j]).ty is InterfaceVersion),
        forall|j: int| 0 <= j < args.len() && args[j].enum_ is None
            && (args[j].typ == Type::Object || args[j].typ == Type::NewId) ==> match args[j].interface {
            Some(i) => (#[trigger] fields[j]).ty matches FieldType::Proxy { module, ty_name }
                && module@ == i@ && ty_name@ == camel_text(i@),
            None => true,
        },
    decreases args.len(),
{
    if args.len() > 0 {
        lemma_received_message_fields(fields.drop_last(), args.drop_last(), side);
        assert forall|j: int| 0 <= j < args.len() implies field_plan_ok(#[trigger] fields[j], args[j], side, true) by {
            if j < args.len() - 1 {
                assert(fields.drop_last()[j] == fields[j]);
                assert(args.drop_last()[j] == args[j]);
            }
        }
        assert forall|j: int| 0 <= j < args.len() implies !((#[trigger] fields[j]).ty is InterfaceVersion) by {
            assert(field_plan_ok(fields[j], args[j], side, true));
        }
        assert forall|j: int| 0 <= j < args.len() && args[j].enum_ is None
            && (args[j].typ == Type::Object || args[j].typ == Type::NewId) implies match args[j].interface {
            Some(i) => (#[trigger] fields[j]).ty matches FieldType::Proxy { module, ty_name }
                && module@ == i@ && ty_name@ == camel_text(i@),
            None => true,
        } by {
            assert(field_plan_ok(fields[j], args[j], side, true));
        }
    }
}

/// The entry of a message signature for an argument: its wire type, nullable
/// when the argument allows null.
pub open spec fn signature_type(arg: Arg) -> ArgumentType {
    let null = if arg.allow_null { AllowNull::Yes } else { AllowNull::No };
    match arg.typ {
        Type::Int => ArgumentType::Int,
        Type::Uint => ArgumentType::Uint,
        Type::Fixed => ArgumentType::Fixed,
        Type::String => ArgumentType::Str(null),
        Type::Object => ArgumentType::Object(null),
        Type::NewId => ArgumentType::NewId(null),
        Type::Array => ArgumentType::Array(null),
        Type::Fd => ArgumentType::Fd,
        Type::Destructor => ArgumentType::Int,
    }
}

/// The signature of a received message: one entry per argument, in order.
pub open spec fn received_signature(msg: Message) -> Seq<ArgumentType> {
    Seq::new(msg.args@.len(), |j: int| signature_type(msg.args@[j]))
}

/// Whether a wire argument has the variant `k`, as the pattern of a parsing arm
/// requires: `ArgKind::Uint` matches `Argument::Uint(_)` and nothing else.
pub open spec fn kind_accepts<Id>(k: ArgKind, a: Argument<Id>) -> bool {
    match k {
        ArgKind::Int => a is Int,
        ArgKind::Uint => a is Uint,
        ArgKind::Fixed => a is Fixed,
        ArgKind::Str => a is Str,
        ArgKind::Object => a is Object,
        ArgKind::NewId => a is NewId,
        ArgKind::Array => a is Array,
        ArgKind::Fd => a is Fd,
    }
}

/// Whether the patterns of a parsing arm match a list of wire arguments.
pub open spec fn arm_accepts<Id>(arm: ParseArm, args: Seq<Argument<Id>>) -> bool {
    &&& arm.args@.len() == args.len()
    &&& forall|j: int| 0 <= j < args.len() ==> kind_accepts(#[trigger] arm.args@[j].kind, args[j])
}

/// The parsing arm of a message accepts exactly the argument lists that
/// `check_for_signature` accepts for the message's signature: each argument is
/// read from the wire variant of its own type.
pub proof fn lemma_parse_arm_accepts_its_signature<Id>(arm: ParseArm, msg: Message, opcode: int, args: Seq<Argument<Id>>)
    requires
        parse_arm_ok(arm, msg, opcode),
        args_well_typed(msg.args@),
    ensures
        arm_accepts(arm, args) <==> matches_signature(received_signature(msg), args),
{
    let sig = received_signature(msg);
    if arm.args@.len() == args.len() {
        assert forall|j: int| 0 <= j < args.len() implies
            kind_accepts(#[trigger] arm.args@[j].kind, args[j]) == args[j].get_type().same_type(sig[j]) by {
            assert(parse_arg_ok(arm.args@[j], msg.args@[j]));
            assert(msg.args@[j].typ != Type::Destructor);
        }
        if arm_accepts(arm, args) {
            assert forall|j: int| 0 <= j < args.len() implies (#[trigger] args[j]).get_type().same_type(sig[j]) by {
                assert(kind_accepts(arm.args@[j].kind, args[j]));
            }
        }
        if matches_signature(sig, args) {
            assert forall|j: int| 0 <= j < args.len() implies kind_accepts(#[trigger] arm.args@[j].kind, args[j]) by {
                assert(args[j].get_type().same_type(sig[j]));
            }
        }
    }
}

/// Whether parsing `p` fills field `f` of a message variant on `side`: the same
/// name, and a value of the field's type, absent exactly when the field is
/// optional and the wire value is the empty or null one.
pub open spec fn parse_fills(p: ParseArg, f: FieldPlan, side: Side) -> bool {
    &&& p.name@ == f.name@
    &&& match p.conversion {
        Conversion::FromEnum => f.ty is WEnum,
        Conversion::Copy => match p.kind {
            ArgKind::Uint => f.ty is U32,
            ArgKind::Int => f.ty is I32,
            ArgKind::Fd => f.ty is Fd,
            _ => false,
        },
        Conversion::FixedToFloat => p.kind is Fixed && f.ty is F64,
        Conversion::Text { nullable } => p.kind is Str && f.ty is Text && nullable == f.optional,
        Conversion::Bytes { nullable } => p.kind is Array && f.ty is Bytes && nullable == f.optional,
        Conversion::Object { created, nullable } => nullable == f.optional && (match created {
            Some((m, ty)) => {
                &&& p.kind is Object || p.kind is NewId
                &&& f.ty matches FieldType::Proxy { module, ty_name } && module@ == m@ && ty_name@ == ty@
            },
            None => (p.kind is Object && f.ty == FieldType::ObjectId(side))
                || (p.kind is NewId && f.ty == FieldType::Bind(side)),
        }),
    }
}

/// The parsing arm of a received message fills, in order, every field of the
/// message's variant in the message enum, each with a value of its type: a
/// uint into a `u32`, a fixed into an `f64`, an object of an interface into that
/// interface's proxy or resource, and so on.
pub proof fn lemma_parsing_fills_message_fields(
    arm: ParseArm,
    msg: Message,
    opcode: int,
    variant: VariantPlan,
    side: Side,
)
    requires
        parse_arm_ok(arm, msg, opcode),
        args_well_typed(msg.args@),
        variant.name@ == camel_text(msg.name@),
        fields_ok(variant.fields@, msg.args@, side, true),
    ensures
        arm.variant@ == variant.name@,
        arm.args@.len() == variant.fields@.len(),
        forall|j: int| 0 <= j < arm.args@.len() ==> parse_fills(#[trigger] arm.args@[j], variant.fields@[j], side),
{
    lemma_received_message_fields(variant.fields@, msg.args@, side);
    assert forall|j: int| 0 <= j < arm.args@.len() implies parse_fills(#[trigger] arm.args@[j], variant.fields@[j], side) by {
        assert(parse_arg_ok(arm.args@[j], msg.args@[j]));
        assert(field_plan_ok(variant.fields@[j], msg.args@[j], side, true));
        assert(msg.args@[j].typ != Type::Destructor);
    }
}

/// The wire arguments, by type, that an argument written with `k` becomes.
pub open spec fn written_types(k: WriteKind) -> Seq<ArgumentType> {
    match k {
        WriteKind::Int | WriteKind::IntFromEnum => seq![ArgumentType::Int],
        WriteKind::Uint | WriteKind::UintFromEnum => seq![ArgumentType::Uint],
        WriteKind::Fd => seq![ArgumentType::Fd],
        WriteKind::Fixed => seq![ArgumentType::Fixed],
        WriteKind::Object => seq![ArgumentType::Object(AllowNull::No)],
        WriteKind::ObjectOrNull => seq![ArgumentType::Object(AllowNull::Yes)],
        WriteKind::Array => seq![ArgumentType::Array(AllowNull::No)],
        WriteKind::ArrayOrEmpty => seq![ArgumentType::Array(AllowNull::Yes)],
        WriteKind::Str => seq![ArgumentType::Str(AllowNull::No)],
        WriteKind::StrOrEmpty => seq![ArgumentType::Str(AllowNull::Yes)],
        WriteKind::Placeholder { .. } => seq![ArgumentType::NewId(AllowNull::No)],
        WriteKind::DynamicNewId => seq![
            ArgumentType::Str(AllowNull::No),
            ArgumentType::Uint,
            ArgumentType::NewId(AllowNull::No),
        ],
        WriteKind::NewId => seq![ArgumentType::NewId(AllowNull::No)],
        WriteKind::NewIdOrNull => seq![ArgumentType::NewId(AllowNull::Yes)],
    }
}

/// The signature entries of an argument that `side` sends: a new object of no
/// fixed interface that a client creates is sent as its interface name, its
/// version and its id; any other argument is one entry of its own type.
pub open spec fn sent_types(arg: Arg, side: Side) -> Seq<ArgumentType> {
    if arg.typ == Type::NewId && side == Side::Client && arg.interface is None {
        seq![ArgumentType::Str(AllowNull::No), ArgumentType::Uint, ArgumentType::NewId(AllowNull::No)]
    } else {
        seq![signature_type(arg)]
    }
}

/// Whether two lists of argument types have the same types, nullability left
/// out.
pub open spec fn same_types(a: Seq<ArgumentType>, b: Seq<ArgumentType>) -> bool {
    &&& a.len() == b.len()
    &&& forall|i: int| 0 <= i < a.len() ==> (#[trigger] a[i]).same_type(b[i])
}

/// Each argument of a writing arm is written as the wire variants of its
/// message argument's signature: an fd argument as `Argument::Fd`, a uint as
/// `Argument::Uint`, and so on, so the written message matches the message's
/// signature under `check_for_signature`. Where the signature says whether the
/// argument may be null, the writing agrees (a new object that a client creates
/// is never null).
pub proof fn lemma_write_arm_follows_signature(arm: WriteArm, msg: Message, opcode: int, side: Side, j: int)
    requires
        write_arm_ok(arm, msg, opcode, side),
        args_well_typed(msg.args@),
        0 <= j < msg.args@.len(),
    ensures
        same_types(written_types(arm.args@[j].kind), sent_types(msg.args@[j], side)),
        !(msg.args@[j].typ == Type::NewId && side == Side::Client)
            ==> written_types(arm.args@[j].kind) == sent_types(msg.args@[j], side),
{
    let arg = msg.args@[j];
    assert(arg.typ != Type::Destructor);
    assert(write_kind_ok(arm.args@[j].kind, arg, side));
}

/// The pattern of a writing arm binds exactly the fields of the message's
/// variant in the message enum of the sending side, in order.
pub proof fn lemma_write_pattern_binds_fields(bound: Seq<String>, fields: Seq<FieldPlan>, args: Seq<Arg>, side: Side)
    requires
        bound_ok(bound, args, side),
        fields_ok(fields, args, side, false),
        forall|j: int| 0 <= j < args.len() ==> !((#[trigger] args[j]).typ == Type::NewId && args[j].enum_ is Some),
    ensures
        bound.len() == fields.len(),
        forall|i: int| 0 <= i < bound.len() ==> (#[trigger] bound[i])@ == fields[i].name@,
    decreases args.len(),
{
    if args.len() > 0 {
        let last = args.last();
        assert(!(last.typ == Type::NewId && last.enum_ is Some));
        assert forall|j: int| 0 <= j < args.drop_last().len()
            implies !((#[trigger] args.drop_last()[j]).typ == Type::NewId && args.drop_last()[j].enum_ is Some) by {
            assert(args.drop_last()[j] == args[j]);
        }
        if is_bound(last, side) {
            lemma_write_pattern_binds_fields(bound.drop_last(), fields.drop_last(), args.drop_last(), side);
            assert forall|i: int| 0 <= i < bound.len() implies (#[trigger] bound[i])@ == fields[i].name@ by {
                if i < bound.len() - 1 {
                    assert(bound.drop_last()[i] == bound[i]);
                    assert(fields.drop_last()[i] == fields[i]);
                }
            }
        } else {
            lemma_write_pattern_binds_fields(bound, fields, args.drop_last(), side);
        }
    }
}

/// Plans the enums of an interface, in order.
pub fn generate_enums_for(interface: &Interface) -> (r: Vec<EnumPlan>)
    requires
        forall|i: int, k: int| 0 <= i < interface.enums@.len() && 0 <= k < interface.enums@[i].entries@.len()
            ==> (#[trigger] interface.enums@[i].entries@[k]).name@.len() > 0,
    ensures
        r@.len() == interface.enums@.len(),
        forall|i: int| 0 <= i < r@.len() ==> {
            let e = interface.enums@[i];
            &&& (#[trigger] r@[i]).ident@ == camel_text(e.name@)
            &&& r@[i].doc == e.description
            &&& r@[i].bitfield == e.bitfield
            &&& r@[i].entries@.len() == e.entries@.len()
            &&& forall|k: int| 0 <= k < e.entries@.len() ==> entry_plan_ok(#[trigger] r@[i].entries@[k], e.entries@[k])
        },
{
    let mut r: Vec<EnumPlan> = Vec::new();
    let mut i: usize = 0;
    while i < interface.enums.len()
        invariant
            i <= interface.enums@.len(),
            forall|i: int, k: int| 0 <= i < interface.enums@.len() && 0 <= k < interface.enums@[i].entries@.len()
                ==> (#[trigger] interface.enums@[i].entries@[k]).name@.len() > 0,
            r@.len() == i,
            forall|j: int| 0 <= j < i ==> {
                let e = interface.enums@[j];
                &&& (#[trigger] r@[j]).ident@ == camel_text(e.name@)
                &&& r@[j].doc == e.description
                &&& r@[j].bitfield == e.bitfield
                &&& r@[j].entries@.len() == e.entries@.len()
                &&& forall|k: int| 0 <= k < e.entries@.len() ==> entry_plan_ok(#[trigger] r@[j].entries@[k], e.entries@[k])
            },
        decreases interface.enums@.len() - i,
    {
        let e = &interface.enums[i];
        assert(forall|k: int| 0 <= k < e.entries@.len() ==> (#[trigger] e.entries@[k]).name@.len() > 0);
        r.push(plan_enum(e));
        i = i + 1;
    }
    r
}

} // verus!
