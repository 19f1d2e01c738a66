//! A parser for the embedded structured-value syntax found inside the game
//! server's configuration files.
//!
//! A structured value is a parenthesized, comma-separated property list:
//! `(Name=Value,Other="quoted text")`. A property's name is a run of ASCII
//! word characters; its value is either a double-quoted string — the quotes
//! delimit it and are not part of the value — or a bare primitive: a
//! nonempty run of characters free of commas, closing parentheses and
//! quotes, kept as raw text.

use vstd::prelude::*;
use vstd::pervasive::unreached;
use vstd::string::{StringExecFns, StrSliceExecFns};

verus! {

/// The parser for the structured-value syntax.
pub struct UnrealSturctParser;

/// One property's value.
#[derive(Debug, PartialEq)]
pub enum Value {
    /// A bare value, kept as its raw text.
    Primitive(String),
    /// A double-quoted value, with the delimiting quotes removed.
    String(String),
}

/// Model of a value.
pub enum ValueModel {
    Primitive(Seq<char>),
    Quoted(Seq<char>),
}

impl View for Value {
    type V = ValueModel;

    open spec fn view(&self) -> ValueModel {
        match self {
            Value::Primitive(t) => ValueModel::Primitive(t@),
            Value::String(t) => ValueModel::Quoted(t@),
        }
    }
}

/// An ASCII word character: a letter, a digit, or an underscore.
pub open spec fn is_ident_char(c: char) -> bool {
    (48 <= c as u32 <= 57) || (65 <= c as u32 <= 90) || (97 <= c as u32 <= 122) || c as u32 == 95
}

/// A character a bare primitive value may hold.
pub open spec fn is_primitive_char(c: char) -> bool {
    c != ',' && c != ')' && c != '"'
}

/// Where the run of word characters beginning at `i` ends.
pub open spec fn spec_ident_end(s: Seq<char>, i: int) -> int
    decreases s.len() - i,
{
    if i < 0 || i >= s.len() {
        i
    } else if is_ident_char(s[i]) {
        spec_ident_end(s, i + 1)
    } else {
        i
    }
}

/// Where the run of primitive characters beginning at `i` ends.
pub open spec fn spec_primitive_end(s: Seq<char>, i: int) -> int
    decreases s.len() - i,
{
    if i < 0 || i >= s.len() {
        i
    } else if is_primitive_char(s[i]) {
        spec_primitive_end(s, i + 1)
    } else {
        i
    }
}

/// Where the quoted text beginning at `i` ends: the position of the next
/// quote, or the end.
pub open spec fn spec_quote_end(s: Seq<char>, i: int) -> int
    decreases s.len() - i,
{
    if i < 0 || i >= s.len() {
        i
    } else if s[i] != '"' {
        spec_quote_end(s, i + 1)
    } else {
        i
    }
}

/// One property parsed at `i`: its name, its value, and the position just
/// after it. The name must be a nonempty word run followed by `=`; a value
/// opening with a quote runs to the next quote, which must exist; a bare
/// value is a nonempty primitive run.
pub open spec fn spec_parse_prop(s: Seq<char>, i: int) -> Option<(Seq<char>, ValueModel, int)> {
    let ne = spec_ident_end(s, i);
    if ne == i || ne >= s.len() || s[ne] != '=' {
        None
    } else if ne + 1 < s.len() && s[ne + 1] == '"' {
        let qe = spec_quote_end(s, ne + 2);
        if qe < s.len() && s[qe] == '"' {
            Some((s.subrange(i, ne), ValueModel::Quoted(s.subrange(ne + 2, qe)), qe + 1))
        } else {
            None
        }
    } else {
        let pe = spec_primitive_end(s, ne + 1);
        if pe == ne + 1 {
            None
        } else {
            Some((s.subrange(i, ne), ValueModel::Primitive(s.subrange(ne + 1, pe)), pe))
        }
    }
}

/// One or more comma-separated properties parsed at `i`, and the position
/// just after the last one.
pub open spec fn spec_parse_props(s: Seq<char>, i: int) -> Option<
    (Seq<(Seq<char>, ValueModel)>, int),
>
    decreases s.len() - i,
{
    match spec_parse_prop(s, i) {
        None => None,
        Some((name, value, j)) => {
            if j <= i || j > s.len() {
                None
            } else if j < s.len() && s[j] == ',' {
                match spec_parse_props(s, j + 1) {
                    None => None,
                    Some((rest, k)) => Some((seq![(name, value)] + rest, k)),
                }
            } else {
                Some((seq![(name, value)], j))
            }
        },
    }
}

/// The whole structured value: `(`, the property list (possibly empty),
/// `)`, with nothing before or after.
pub open spec fn spec_parse_struct(s: Seq<char>) -> Option<Seq<(Seq<char>, ValueModel)>> {
    if s.len() < 2 || s[0] != '(' || s.last() != ')' {
        None
    } else if s.len() == 2 {
        Some(Seq::empty())
    } else {
        match spec_parse_props(s, 1) {
            Some((props, j)) => if j == s.len() - 1 {
                Some(props)
            } else {
                None
            },
            None => None,
        }
    }
}

fn is_ident_char_exec(c: char) -> (b: bool)
    ensures
        b == is_ident_char(c),
{
    let u = c as u32;
    (48 <= u && u <= 57) || (65 <= u && u <= 90) || (97 <= u && u <= 122) || u == 95
}

fn scan_ident(s: &str, from: usize) -> (e: usize)
    requires
        from <= s@.len(),
    ensures
        e as int == spec_ident_end(s@, from as int),
        from <= e <= s@.len(),
{
    let n = s.unicode_len();
    let mut i = from;
    while i < n && is_ident_char_exec(s.get_char(i))
        invariant
            from <= i <= n,
            n == s@.len(),
            spec_ident_end(s@, from as int) == spec_ident_end(s@, i as int),
        decreases n - i,
    {
        i += 1;
    }
    i
}

fn scan_primitive(s: &str, from: usize) -> (e: usize)
    requires
        from <= s@.len(),
    ensures
        e as int == spec_primitive_end(s@, from as int),
        from <= e <= s@.len(),
{
    let n = s.unicode_len();
    let mut i = from;
    while i < n && s.get_char(i) != ',' && s.get_char(i) != ')' && s.get_char(i) != '"'
        invariant
            from <= i <= n,
            n == s@.len(),
            spec_primitive_end(s@, from as int) == spec_primitive_end(s@, i as int),
        decreases n - i,
    {
        i += 1;
    }
    i
}

fn scan_quote(s: &str, from: usize) -> (e: usize)
    requires
        from <= s@.len(),
    ensures
        e as int == spec_quote_end(s@, from as int),
        from <= e <= s@.len(),
{
    let n = s.unicode_len();
    let mut i = from;
    while i < n && s.get_char(i) != '"'
        invariant
            from <= i <= n,
            n == s@.len(),
            spec_quote_end(s@, from as int) == spec_quote_end(s@, i as int),
        decreases n - i,
    {
        i += 1;
    }
    i
}

/// Parses one property at `i`, exactly as [`spec_parse_prop`] states.
fn parse_prop(s: &str, i: usize) -> (r: Option<(String, Value, usize)>)
    requires
        i <= s@.len(),
    ensures
        (r is Some) == (spec_parse_prop(s@, i as int) is Some),
        r matches Some(p) ==> (spec_parse_prop(s@, i as int) matches Some(q) && p.0@ == q.0
            && p.1@ == q.1 && p.2 as int == q.2 && i < p.2 <= s@.len()),
{
    let n = s.unicode_len();
    let ne = scan_ident(s, i);
    if ne == i || ne == n || s.get_char(ne) != '=' {
        return None;
    }
    let name = s.substring_char(i, ne).to_owned();
    if ne + 1 < n && s.get_char(ne + 1) == '"' {
        let qe = scan_quote(s, ne + 2);
        if qe < n && s.get_char(qe) == '"' {
            let text = s.substring_char(ne + 2, qe).to_owned();
            Some((name, Value::String(text), qe + 1))
        } else {
            None
        }
    } else {
        let pe = scan_primitive(s, ne + 1);
        if pe == ne + 1 {
            None
        } else {
            let text = s.substring_char(ne + 1, pe).to_owned();
            Some((name, Value::Primitive(text), pe))
        }
    }
}

/// Parses the comma-separated properties at `i`, exactly as
/// [`spec_parse_props`] states.
fn parse_props(s: &str, i: usize) -> (r: Option<(Vec<(String, Value)>, usize)>)
    requires
        i <= s@.len(),
    ensures
        (r is Some) == (spec_parse_props(s@, i as int) is Some),
        r matches Some(p) ==> (spec_parse_props(s@, i as int) matches Some(q) && p.0@.map_values(
            |pr: (String, Value)| (pr.0@, pr.1@),
        ) == q.0 && p.1 as int == q.1 && p.1 <= s@.len()),
    decreases s@.len() - i,
{
    let n = s.unicode_len();
    match parse_prop(s, i) {
        None => None,
        Some((name, value, j)) => {
            if j < n && s.get_char(j) == ',' {
                match parse_props(s, j + 1) {
                    None => None,
                    Some((rest, k)) => {
                        let ghost q_head = (name@, value@);
                        let ghost q_rest = rest@.map_values(|pr: (String, Value)| (pr.0@, pr.1@));
                        let mut out: Vec<(String, Value)> = Vec::new();
                        out.push((name, value));
                        let mut rest = rest;
                        out.append(&mut rest);
                        proof {
                            assert(out@.map_values(|pr: (String, Value)| (pr.0@, pr.1@))
                                =~= seq![q_head] + q_rest);
                        }
                        Some((out, k))
                    },
                }
            } else {
                let ghost q_head = (name@, value@);
                let mut out: Vec<(String, Value)> = Vec::new();
                out.push((name, value));
                proof {
                    assert(out@.map_values(|pr: (String, Value)| (pr.0@, pr.1@))
                        =~= seq![q_head]);
                }
                Some((out, j))
            }
        },
    }
}

/// Parses a whole structured value, exactly as [`spec_parse_struct`]
/// states, or reports that the text is not one. A caller holding arbitrary
/// text tests with this before calling [`parse_struct`].
pub fn try_parse_struct(s: &str) -> (r: Option<Vec<(String, Value)>>)
    ensures
        (r is Some) == (spec_parse_struct(s@) is Some),
        r matches Some(props) ==> (spec_parse_struct(s@) matches Some(ps) && props@.map_values(
            |pr: (String, Value)| (pr.0@, pr.1@),
        ) == ps),
{
    let n = s.unicode_len();
    if n < 2 || s.get_char(0) != '(' || s.get_char(n - 1) != ')' {
        return None;
    }
    if n == 2 {
        let out: Vec<(String, Value)> = Vec::new();
        proof {
            assert(out@.map_values(|pr: (String, Value)| (pr.0@, pr.1@)) =~= Seq::<
                (Seq<char>, ValueModel),
            >::empty());
        }
        return Some(out);
    }
    match parse_props(s, 1) {
        Some((props, j)) => if j == n - 1 {
            Some(props)
        } else {
            None
        },
        None => None,
    }
}

/// The property list of a well-formed structured value: each property's
/// name with its value, in written order.
pub fn parse_struct(s: &str) -> (props: Vec<(String, Value)>)
    requires
        spec_parse_struct(s@) is Some,
    ensures
        spec_parse_struct(s@) matches Some(ps) && props@.map_values(
            |pr: (String, Value)| (pr.0@, pr.1@),
        ) == ps,
{
    match try_parse_struct(s) {
        Some(props) => props,
        None => unreached(),
    }
}

} // verus!
