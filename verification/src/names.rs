//! How the scanner turns protocol names into Rust names: camel case, upper
//! case, keywords, trimming, dotted enum references.
use vstd::prelude::*;
use crate::text::{push_char, push_str, str_eq};

verus! {

/// The ASCII upper-case form of a character; other characters are unchanged.
pub open spec fn ascii_upper(c: char) -> char {
    if 'a' <= c && c <= 'z' {
        ((c as u32) - 32) as char
    } else {
        c
    }
}

/// The ASCII upper-case form of a string.
pub open spec fn ascii_upper_text(s: Seq<char>) -> Seq<char> {
    s.map_values(|c: char| ascii_upper(c))
}

/// Camel case from a position in a snake-case name: underscores are dropped and
/// the character after each run of them (and the first one, when `start`) is
/// upper-cased.
pub open spec fn camel_from(s: Seq<char>, start: bool) -> Seq<char>
    decreases s.len(),
{
    if s.len() == 0 {
        seq![]
    } else if s[0] == '_' {
        camel_from(s.drop_first(), true)
    } else {
        seq![if start { ascii_upper(s[0]) } else { s[0] }] + camel_from(s.drop_first(), false)
    }
}

/// The camel-case form of a snake-case name: `wl_surface` gives `WlSurface`.
pub open spec fn camel_text(s: Seq<char>) -> Seq<char> {
    camel_from(s, true)
}

/// `char::to_ascii_uppercase`, stated for exactly the ASCII letters.
fn upper(c: char) -> (r: char)
    ensures
        r == ascii_upper(c),
{
    if 'a' <= c && c <= 'z' {
        let b: u8 = (c as u8) - 32;
        b as char
    } else {
        c
    }
}

/// Converts a snake-case name to camel case.
pub fn snake_to_camel(input: &str) -> (r: String)
    ensures
        r@ == camel_text(input@),
{
    let n = input.unicode_len();
    let mut out = String::new();
    let mut start = true;
    let mut i: usize = 0;
    assert(input@.skip(0) =~= input@);
    assert(out@ + camel_from(input@.skip(0), true) =~= camel_text(input@));
    while i < n
        invariant
            n == input@.len(),
            i <= n,
            out@ + camel_from(input@.skip(i as int), start) == camel_text(input@),
        decreases n - i,
    {
        let c = input.get_char(i);
        let ghost rest = input@.skip(i as int);
        assert(rest.drop_first() =~= input@.skip(i + 1));
        assert(rest[0] == c);
        if c == '_' {
            start = true;
        } else {
            let d = if start { upper(c) } else { c };
            push_char(&mut out, d);
            assert(out@ + camel_from(input@.skip(i + 1), false) =~= camel_text(input@));
            start = false;
        }
        i = i + 1;
    }
    assert(input@.skip(n as int) =~= Seq::<char>::empty());
    assert(out@ =~= camel_text(input@));
    out
}

/// Converts a name to ASCII upper case.
pub fn to_ascii_uppercase(input: &str) -> (r: String)
    ensures
        r@ == ascii_upper_text(input@),
{
    let n = input.unicode_len();
    let mut out = String::new();
    let mut i: usize = 0;
    while i < n
        invariant
            n == input@.len(),
            i <= n,
            out@ == ascii_upper_text(input@.take(i as int)),
        decreases n - i,
    {
        let c = input.get_char(i);
        push_char(&mut out, upper(c));
        assert(ascii_upper_text(input@.take(i + 1)) =~= ascii_upper_text(input@.take(i as int)).push(ascii_upper(c)));
        i = i + 1;
    }
    assert(input@.take(n as int) =~= input@);
    out
}

/// Whether a name is a Rust keyword (or one reserved by the generated code), so
/// that it cannot name a field.
pub open spec fn is_keyword_text(s: Seq<char>) -> bool {
    ||| s == "abstract"@ ||| s == "alignof"@ ||| s == "as"@ ||| s == "become"@
    ||| s == "box"@ ||| s == "break"@ ||| s == "const"@ ||| s == "continue"@
    ||| s == "crate"@ ||| s == "do"@ ||| s == "else"@ ||| s == "enum"@
    ||| s == "extern"@ ||| s == "false"@ ||| s == "final"@ ||| s == "fn"@
    ||| s == "for"@ ||| s == "if"@ ||| s == "impl"@ ||| s == "in"@
    ||| s == "let"@ ||| s == "loop"@ ||| s == "macro"@ ||| s == "match"@
    ||| s == "mod"@ ||| s == "move"@ ||| s == "mut"@ ||| s == "offsetof"@
    ||| s == "override"@ ||| s == "priv"@ ||| s == "proc"@ ||| s == "pub"@
    ||| s == "pure"@ ||| s == "ref"@ ||| s == "return"@ ||| s == "Self"@
    ||| s == "self"@ ||| s == "sizeof"@ ||| s == "static"@ ||| s == "struct"@
    ||| s == "super"@ ||| s == "trait"@ ||| s == "true"@ ||| s == "type"@
    ||| s == "typeof"@ ||| s == "unsafe"@ ||| s == "unsized"@ ||| s == "use"@
    ||| s == "virtual"@ ||| s == "where"@ ||| s == "while"@ ||| s == "yield"@
    ||| s == "__handler"@ ||| s == "__object"@
}

/// Checks whether a name is a keyword (see [`is_keyword_text`]).
pub fn is_keyword(txt: &str) -> (r: bool)
    ensures
        r == is_keyword_text(txt@),
{
    str_eq(txt, "abstract") || str_eq(txt, "alignof") || str_eq(txt, "as") || str_eq(txt, "become")
    || str_eq(txt, "box") || str_eq(txt, "break") || str_eq(txt, "const") || str_eq(txt, "continue")
    || str_eq(txt, "crate") || str_eq(txt, "do") || str_eq(txt, "else") || str_eq(txt, "enum")
    || str_eq(txt, "extern") || str_eq(txt, "false") || str_eq(txt, "final") || str_eq(txt, "fn")
    || str_eq(txt, "for") || str_eq(txt, "if") || str_eq(txt, "impl") || str_eq(txt, "in")
    || str_eq(txt, "let") || str_eq(txt, "loop") || str_eq(txt, "macro") || str_eq(txt, "match")
    || str_eq(txt, "mod") || str_eq(txt, "move") || str_eq(txt, "mut") || str_eq(txt, "offsetof")
    || str_eq(txt, "override") || str_eq(txt, "priv") || str_eq(txt, "proc") || str_eq(txt, "pub")
    || str_eq(txt, "pure") || str_eq(txt, "ref") || str_eq(txt, "return") || str_eq(txt, "Self")
    || str_eq(txt, "self") || str_eq(txt, "sizeof") || str_eq(txt, "static") || str_eq(txt, "struct")
    || str_eq(txt, "super") || str_eq(txt, "trait") || str_eq(txt, "true") || str_eq(txt, "type")
    || str_eq(txt, "typeof") || str_eq(txt, "unsafe") || str_eq(txt, "unsized") || str_eq(txt, "use")
    || str_eq(txt, "virtual") || str_eq(txt, "where") || str_eq(txt, "while") || str_eq(txt, "yield")
    || str_eq(txt, "__handler") || str_eq(txt, "__object")
}

/// The name of a field for an argument: an underscore before it when it is a
/// keyword.
pub open spec fn field_name_text(name: Seq<char>) -> Seq<char> {
    if is_keyword_text(name) { seq!['_'] + name } else { name }
}

/// The name of the field that holds an argument.
pub fn field_name(name: &str) -> (r: String)
    ensures
        r@ == field_name_text(name@),
{
    let mut out = String::new();
    if is_keyword(name) {
        push_char(&mut out, '_');
    }
    push_str(&mut out, name);
    assert(out@ =~= field_name_text(name@));
    out
}

/// Whether a character has the Unicode `White_Space` property.
pub open spec fn is_white_space(c: char) -> bool {
    ||| ('\u{9}' <= c && c <= '\u{d}')
    ||| c == ' '
    ||| c == '\u{85}'
    ||| c == '\u{a0}'
    ||| c == '\u{1680}'
    ||| ('\u{2000}' <= c && c <= '\u{200a}')
    ||| c == '\u{2028}'
    ||| c == '\u{2029}'
    ||| c == '\u{202f}'
    ||| c == '\u{205f}'
    ||| c == '\u{3000}'
}

fn white_space(c: char) -> (r: bool)
    ensures
        r == is_white_space(c),
{
    ('\u{9}' <= c && c <= '\u{d}') || c == ' ' || c == '\u{85}' || c == '\u{a0}' || c == '\u{1680}'
        || ('\u{2000}' <= c && c <= '\u{200a}') || c == '\u{2028}' || c == '\u{2029}'
        || c == '\u{202f}' || c == '\u{205f}' || c == '\u{3000}'
}

/// The text without its leading white space.
pub open spec fn trim_start_text(s: Seq<char>) -> Seq<char>
    decreases s.len(),
{
    if s.len() > 0 && is_white_space(s[0]) { trim_start_text(s.drop_first()) } else { s }
}

/// The text without its trailing white space.
pub open spec fn trim_end_text(s: Seq<char>) -> Seq<char>
    decreases s.len(),
{
    if s.len() > 0 && is_white_space(s.last()) { trim_end_text(s.drop_last()) } else { s }
}

/// The text without leading and trailing white space.
pub open spec fn trim_text(s: Seq<char>) -> Seq<char> {
    trim_end_text(trim_start_text(s))
}

/// Removes leading and trailing white space.
pub fn trim(input: &str) -> (r: String)
    ensures
        r@ == trim_text(input@),
{
    let n = input.unicode_len();
    let mut i: usize = 0;
    assert(input@.skip(0) =~= input@);
    while i < n && white_space(input.get_char(i))
        invariant
            n == input@.len(),
            i <= n,
            trim_start_text(input@) == trim_start_text(input@.skip(i as int)),
        decreases n - i,
    {
        assert(input@.skip(i as int).drop_first() =~= input@.skip(i + 1));
        i = i + 1;
    }
    let ghost mid = input@.skip(i as int);
    assert(trim_start_text(mid) == mid) by {
        if mid.len() > 0 {
            assert(mid[0] == input@[i as int]);
        }
    }
    let mut j: usize = n;
    while j > i && white_space(input.get_char(j - 1))
        invariant
            n == input@.len(),
            i <= j <= n,
            mid == input@.skip(i as int),
            trim_end_text(mid) == trim_end_text(input@.subrange(i as int, j as int)),
        decreases j - i,
    {
        assert(input@.subrange(i as int, j as int).drop_last() =~= input@.subrange(i as int, j - 1));
        j = j - 1;
    }
    let ghost kept = input@.subrange(i as int, j as int);
    assert(trim_end_text(kept) == kept) by {
        if kept.len() > 0 {
            assert(kept.last() == input@[j - 1]);
        }
    }
    assert(mid =~= input@.subrange(i as int, n as int));
    let mut out = String::new();
    let mut k: usize = i;
    while k < j
        invariant
            n == input@.len(),
            i <= k <= j <= n,
            out@ == input@.subrange(i as int, k as int),
        decreases j - k,
    {
        push_char(&mut out, input.get_char(k));
        assert(out@ =~= input@.subrange(i as int, k + 1));
        k = k + 1;
    }
    out
}


/// A camel-case name holds no underscore.
pub proof fn lemma_camel_has_no_underscore(s: Seq<char>, start: bool)
    ensures
        !camel_from(s, start).contains('_'),
    decreases s.len(),
{
    if s.len() > 0 {
        lemma_camel_has_no_underscore(s.drop_first(), true);
        lemma_camel_has_no_underscore(s.drop_first(), false);
        let rest_f = camel_from(s.drop_first(), false);
        if s[0] != '_' {
            let c = if start { ascii_upper(s[0]) } else { s[0] };
            assert(c != '_');
            let out = seq![c] + rest_f;
            assert forall|k: int| 0 <= k < out.len() implies out[k] != '_' by {
                if k > 0 {
                    assert(out[k] == rest_f[k - 1]);
                }
            }
        }
    }
}

/// An upper-cased name holds no lower-case ASCII letter, and upper-casing it
/// again changes nothing.
pub proof fn lemma_ascii_upper_idempotent(s: Seq<char>)
    ensures
        forall|k: int| 0 <= k < s.len() ==> !('a' <= #[trigger] ascii_upper_text(s)[k] && ascii_upper_text(s)[k] <= 'z'),
        ascii_upper_text(ascii_upper_text(s)) == ascii_upper_text(s),
{
    assert(ascii_upper_text(ascii_upper_text(s)) =~= ascii_upper_text(s));
}

/// A trimmed text neither starts nor ends with white space.
pub proof fn lemma_trimmed_has_no_outer_space(s: Seq<char>)
    ensures
        trim_text(s).len() > 0 ==> !is_white_space(trim_text(s)[0]) && !is_white_space(trim_text(s).last()),
{
    lemma_trim_start(s);
    lemma_trim_end(trim_start_text(s));
}

proof fn lemma_trim_start(s: Seq<char>)
    ensures
        trim_start_text(s).len() > 0 ==> !is_white_space(trim_start_text(s)[0]),
    decreases s.len(),
{
    if s.len() > 0 && is_white_space(s[0]) {
        lemma_trim_start(s.drop_first());
    }
}

proof fn lemma_trim_end(s: Seq<char>)
    ensures
        trim_end_text(s).len() > 0 ==> !is_white_space(trim_end_text(s).last()),
        trim_end_text(s).len() > 0 ==> trim_end_text(s)[0] == s[0],
        trim_end_text(s).len() <= s.len(),
    decreases s.len(),
{
    if s.len() > 0 && is_white_space(s.last()) {
        lemma_trim_end(s.drop_last());
    }
}


/// The name of a field is never a keyword: the underscore put before a keyword
/// makes a name that is not one.
pub proof fn lemma_field_name_is_not_keyword(name: Seq<char>)
    ensures
        !is_keyword_text(field_name_text(name)),
{
    if is_keyword_text(name) {
        reveal_strlit("abstract");
        assert("abstract"@.len() == 8 && "abstract"@[0] == 'a' && "abstract"@[1] == 'b');
        reveal_strlit("alignof");
        assert("alignof"@.len() == 7 && "alignof"@[0] == 'a' && "alignof"@[1] == 'l');
        reveal_strlit("as");
        assert("as"@.len() == 2 && "as"@[0] == 'a' && "as"@[1] == 's');
        reveal_strlit("become");
        assert("become"@.len() == 6 && "become"@[0] == 'b' && "become"@[1] == 'e');
        reveal_strlit("box");
        assert("box"@.len() == 3 && "box"@[0] == 'b' && "box"@[1] == 'o');
        reveal_strlit("break");
        assert("break"@.len() == 5 && "break"@[0] == 'b' && "break"@[1] == 'r');
        reveal_strlit("const");
        assert("const"@.len() == 5 && "const"@[0] == 'c' && "const"@[1] == 'o');
        reveal_strlit("continue");
        assert("continue"@.len() == 8 && "continue"@[0] == 'c' && "continue"@[1] == 'o');
        reveal_strlit("crate");
        assert("crate"@.len() == 5 && "crate"@[0] == 'c' && "crate"@[1] == 'r');
        reveal_strlit("do");
        assert("do"@.len() == 2 && "do"@[0] == 'd' && "do"@[1] == 'o');
        reveal_strlit("else");
        assert("else"@.len() == 4 && "else"@[0] == 'e' && "else"@[1] == 'l');
        reveal_strlit("enum");
        assert("enum"@.len() == 4 && "enum"@[0] == 'e' && "enum"@[1] == 'n');
        reveal_strlit("extern");
        assert("extern"@.len() == 6 && "extern"@[0] == 'e' && "extern"@[1] == 'x');
        reveal_strlit("false");
        assert("false"@.len() == 5 && "false"@[0] == 'f' && "false"@[1] == 'a');
        reveal_strlit("final");
        assert("final"@.len() == 5 && "final"@[0] == 'f' && "final"@[1] == 'i');
        reveal_strlit("fn");
        assert("fn"@.len() == 2 && "fn"@[0] == 'f' && "fn"@[1] == 'n');
        reveal_strlit("for");
        assert("for"@.len() == 3 && "for"@[0] == 'f' && "for"@[1] == 'o');
        reveal_strlit("if");
        assert("if"@.len() == 2 && "if"@[0] == 'i' && "if"@[1] == 'f');
        reveal_strlit("impl");
        assert("impl"@.len() == 4 && "impl"@[0] == 'i' && "impl"@[1] == 'm');
        reveal_strlit("in");
        assert("in"@.len() == 2 && "in"@[0] == 'i' && "in"@[1] == 'n');
        reveal_strlit("let");
        assert("let"@.len() == 3 && "let"@[0] == 'l' && "let"@[1] == 'e');
        reveal_strlit("loop");
        assert("loop"@.len() == 4 && "loop"@[0] == 'l' && "loop"@[1] == 'o');
        reveal_strlit("macro");
        assert("macro"@.len() == 5 && "macro"@[0] == 'm' && "macro"@[1] == 'a');
        reveal_strlit("match");
        assert("match"@.len() == 5 && "match"@[0] == 'm' && "match"@[1] == 'a');
        reveal_strlit("mod");
        assert("mod"@.len() == 3 && "mod"@[0] == 'm' && "mod"@[1] == 'o');
        reveal_strlit("move");
        assert("move"@.len() == 4 && "move"@[0] == 'm' && "move"@[1] == 'o');
        reveal_strlit("mut");
        assert("mut"@.len() == 3 && "mut"@[0] == 'm' && "mut"@[1] == 'u');
        reveal_strlit("offsetof");
        assert("offsetof"@.len() == 8 && "offsetof"@[0] == 'o' && "offsetof"@[1] == 'f');
        reveal_strlit("override");
        assert("override"@.len() == 8 && "override"@[0] == 'o' && "override"@[1] == 'v');
        reveal_strlit("priv");
        assert("priv"@.len() == 4 && "priv"@[0] == 'p' && "priv"@[1] == 'r');
        reveal_strlit("proc");
        assert("proc"@.len() == 4 && "proc"@[0] == 'p' && "proc"@[1] == 'r');
        reveal_strlit("pub");
        assert("pub"@.len() == 3 && "pub"@[0] == 'p' && "pub"@[1] == 'u');
        reveal_strlit("pure");
        assert("pure"@.len() == 4 && "pure"@[0] == 'p' && "pure"@[1] == 'u');
        reveal_strlit("ref");
        assert("ref"@.len() == 3 && "ref"@[0] == 'r' && "ref"@[1] == 'e');
        reveal_strlit("return");
        assert("return"@.len() == 6 && "return"@[0] == 'r' && "return"@[1] == 'e');
        reveal_strlit("Self");
        assert("Self"@.len() == 4 && "Self"@[0] == 'S' && "Self"@[1] == 'e');
        reveal_strlit("self");
        assert("self"@.len() == 4 && "self"@[0] == 's' && "self"@[1] == 'e');
        reveal_strlit("sizeof");
        assert("sizeof"@.len() == 6 && "sizeof"@[0] == 's' && "sizeof"@[1] == 'i');
        reveal_strlit("static");
        assert("static"@.len() == 6 && "static"@[0] == 's' && "static"@[1] == 't');
        reveal_strlit("struct");
        assert("struct"@.len() == 6 && "struct"@[0] == 's' && "struct"@[1] == 't');
        reveal_strlit("super");
        assert("super"@.len() == 5 && "super"@[0] == 's' && "super"@[1] == 'u');
        reveal_strlit("trait");
        assert("trait"@.len() == 5 && "trait"@[0] == 't' && "trait"@[1] == 'r');
        reveal_strlit("true");
        assert("true"@.len() == 4 && "true"@[0] == 't' && "true"@[1] == 'r');
        reveal_strlit("type");
        assert("type"@.len() == 4 && "type"@[0] == 't' && "type"@[1] == 'y');
        reveal_strlit("typeof");
        assert("typeof"@.len() == 6 && "typeof"@[0] == 't' && "typeof"@[1] == 'y');
        reveal_strlit("unsafe");
        assert("unsafe"@.len() == 6 && "unsafe"@[0] == 'u' && "unsafe"@[1] == 'n');
        reveal_strlit("unsized");
        assert("unsized"@.len() == 7 && "unsized"@[0] == 'u' && "unsized"@[1] == 'n');
        reveal_strlit("use");
        assert("use"@.len() == 3 && "use"@[0] == 'u' && "use"@[1] == 's');
        reveal_strlit("virtual");
        assert("virtual"@.len() == 7 && "virtual"@[0] == 'v' && "virtual"@[1] == 'i');
        reveal_strlit("where");
        assert("where"@.len() == 5 && "where"@[0] == 'w' && "where"@[1] == 'h');
        reveal_strlit("while");
        assert("while"@.len() == 5 && "while"@[0] == 'w' && "while"@[1] == 'h');
        reveal_strlit("yield");
        assert("yield"@.len() == 5 && "yield"@[0] == 'y' && "yield"@[1] == 'i');
        reveal_strlit("__handler");
        assert("__handler"@.len() == 9 && "__handler"@[0] == '_' && "__handler"@[1] == '_');
        reveal_strlit("__object");
        assert("__object"@.len() == 8 && "__object"@[0] == '_' && "__object"@[1] == '_');
        let f = seq!['_'] + name;
        assert(f[0] == '_');
        assert(name.len() >= 2);
        assert(f[1] == name[0]);
        assert(f[2] == name[1]);
        assert(name[0] != '_' || name[1] == '_');
    }
}

} // verus!
