//! Environment variable references in configuration strings.
//!
//! Supports:
//! - `${VAR}`: replaced with the value of VAR, or the empty string if unset;
//! - `${VAR:-default}`: replaced with the value of VAR, or `default` if unset.
//!
//! A variable name is an ASCII letter or underscore followed by ASCII letters,
//! digits and underscores; a default runs up to the first `}`.  References are
//! found from left to right without overlapping; text that is not a complete
//! reference is copied unchanged.
use vstd::prelude::*;

use crate::collections::NamedMap;
use crate::text::{chars_of, push_char, push_str};

verus! {

pub open spec fn is_name_start(c: char) -> bool {
    ('A' <= c && c <= 'Z') || ('a' <= c && c <= 'z') || c == '_'
}

pub open spec fn is_name_char(c: char) -> bool {
    is_name_start(c) || ('0' <= c && c <= '9')
}

/// End of the run of name characters that starts at `i`.
pub open spec fn name_end(s: Seq<char>, i: int) -> int
    decreases s.len() - i,
{
    if 0 <= i < s.len() && is_name_char(s[i]) {
        name_end(s, i + 1)
    } else {
        i
    }
}

/// Position of the first `}` at or after `i`.
pub open spec fn close_brace(s: Seq<char>, i: int) -> Option<int>
    decreases s.len() - i,
{
    if i < 0 || i >= s.len() {
        None
    } else if s[i] == '}' {
        Some(i)
    } else {
        close_brace(s, i + 1)
    }
}

/// A variable reference at the very start of `s`: its name, its default when it
/// has one, and its length.
pub open spec fn reference_at(s: Seq<char>) -> Option<(Seq<char>, Option<Seq<char>>, int)> {
    if s.len() >= 3 && s[0] == '$' && s[1] == '{' && is_name_start(s[2]) {
        let e = name_end(s, 3);
        if e < s.len() && s[e] == '}' {
            Some((s.subrange(2, e), None, e + 1))
        } else if e + 1 < s.len() && s[e] == ':' && s[e + 1] == '-' {
            match close_brace(s, e + 2) {
                Some(b) => Some((s.subrange(2, e), Some(s.subrange(e + 2, b)), b + 1)),
                None => None,
            }
        } else {
            None
        }
    } else {
        None
    }
}

/// What a reference stands for: the variable's value when it is set, else the
/// default, else nothing.
pub open spec fn substitution(
    name: Seq<char>,
    default: Option<Seq<char>>,
    env: Map<Seq<char>, String>,
) -> Seq<char> {
    if env.contains_key(name) {
        env[name]@
    } else {
        match default {
            Some(d) => d,
            None => Seq::empty(),
        }
    }
}

/// `s` with every reference replaced by what it stands for.
pub open spec fn resolve_spec(s: Seq<char>, env: Map<Seq<char>, String>) -> Seq<char>
    decreases s.len(),
{
    if s.len() == 0 {
        Seq::empty()
    } else {
        match reference_at(s) {
            Some((name, default, n)) => {
                proof {
                    lemma_reference_len(s);
                }
                substitution(name, default, env) + resolve_spec(s.skip(n), env)
            },
            None => seq![s[0]] + resolve_spec(s.skip(1), env),
        }
    }
}

proof fn lemma_name_end_bounds(s: Seq<char>, i: int)
    requires
        0 <= i <= s.len(),
    ensures
        i <= name_end(s, i) <= s.len(),
        forall|k: int| i <= k < name_end(s, i) ==> is_name_char(#[trigger] s[k]),
    decreases s.len() - i,
{
    if i < s.len() && is_name_char(s[i]) {
        lemma_name_end_bounds(s, i + 1);
    }
}

proof fn lemma_close_brace_bounds(s: Seq<char>, i: int)
    requires
        0 <= i,
    ensures
        close_brace(s, i) matches Some(b) ==> i <= b < s.len() && s[b] == '}',
    decreases s.len() - i,
{
    if i < s.len() && s[i] != '}' {
        lemma_close_brace_bounds(s, i + 1);
    }
}

pub proof fn lemma_reference_len(s: Seq<char>)
    ensures
        reference_at(s) matches Some((_, _, n)) ==> 4 <= n <= s.len(),
{
    if s.len() >= 3 {
        lemma_name_end_bounds(s, 3);
        let e = name_end(s, 3);
        if e + 2 <= s.len() {
            lemma_close_brace_bounds(s, e + 2);
        }
    }
}

/// A reference that starts at position `i` of `s`: the end of its name, the
/// position of the `}` that closes it, and whether it has a default (which then
/// starts two characters after the name).
fn reference_at_exec(s: &Vec<char>, i: usize) -> (r: Option<(usize, usize, bool)>)
    requires
        i <= s@.len(),
    ensures
        match reference_at(s@.skip(i as int)) {
            Some((name, default, n)) => r matches Some((e, b, has_default)) && i + 3 <= e && e <= b
                && b < s@.len() && n == b + 1 - i && name == s@.subrange(i + 2, e as int) && (
            has_default <==> default is Some) && (has_default ==> e + 2 <= b && default == Some(
                s@.subrange(e + 2, b as int),
            )) && (!has_default ==> b == e),
            None => r is None,
        },
{
    let ghost t = s@.skip(i as int);
    let len = s.len();
    if !(len - i >= 3 && s[i] == '$' && s[i + 1] == '{') {
        return None;
    }
    let c = s[i + 2];
    if !(('A' <= c && c <= 'Z') || ('a' <= c && c <= 'z') || c == '_') {
        return None;
    }
    let mut e = i + 3;
    while e < len && (('A' <= s[e] && s[e] <= 'Z') || ('a' <= s[e] && s[e] <= 'z') || s[e]
        == '_' || ('0' <= s[e] && s[e] <= '9'))
        invariant
            i + 3 <= e <= len,
            len == s@.len(),
            t == s@.skip(i as int),
            name_end(t, 3) == name_end(t, e - i),
        decreases len - e,
    {
        e = e + 1;
    }
    proof {
        assert(name_end(t, e - i) == e - i);
        lemma_name_end_bounds(t, 3);
    }
    if e < len && s[e] == '}' {
        proof {
            assert(t.subrange(2, e - i) == s@.subrange(i + 2, e as int));
        }
        return Some((e, e, false));
    }
    if !(len - e >= 2 && s[e] == ':' && s[e + 1] == '-') {
        return None;
    }
    let mut b = e + 2;
    while b < len && s[b] != '}'
        invariant
            i + 3 <= e,
            e + 2 <= b <= len,
            len == s@.len(),
            t == s@.skip(i as int),
            close_brace(t, e + 2 - i) == close_brace(t, b - i),
        decreases len - b,
    {
        assert(t[b - i] == s@[b as int]);
        b = b + 1;
    }
    if b < len {
        proof {
            assert(t.subrange(2, e - i) == s@.subrange(i + 2, e as int));
            assert(t.subrange(e + 2 - i, b - i) == s@.subrange(e + 2, b as int));
        }
        Some((e, b, true))
    } else {
        None
    }
}

/// Copies `s[from..to]` into a new string.
fn string_of(s: &Vec<char>, from: usize, to: usize) -> (r: String)
    requires
        from <= to <= s@.len(),
    ensures
        r@ == s@.subrange(from as int, to as int),
{
    let mut r = String::new();
    let mut k = from;
    while k < to
        invariant
            from <= k <= to,
            to <= s@.len(),
            r@ == s@.subrange(from as int, k as int),
        decreases to - k,
    {
        push_char(&mut r, s[k]);
        proof {
            assert(s@.subrange(from as int, k + 1) == s@.subrange(from as int, k as int).push(
                s@[k as int],
            ));
        }
        k = k + 1;
    }
    r
}

/// Resolve environment variable references in `input`, looking variables up in
/// `env` (the process environment, for instance).
pub fn resolve_with_env(input: &str, env: &NamedMap<String>) -> (r: String)
    ensures
        r@ == resolve_spec(input@, env@),
{
    let s = chars_of(input);
    let len = s.len();
    let mut out = String::new();
    let mut i: usize = 0;
    assert(s@.skip(0) == s@);
    while i < len
        invariant
            len == s@.len(),
            s@ == input@,
            i <= len,
            out@ + resolve_spec(s@.skip(i as int), env@) == resolve_spec(input@, env@),
        decreases len - i,
    {
        let ghost t = s@.skip(i as int);
        match reference_at_exec(&s, i) {
            Some((e, b, has_default)) => {
                let name = string_of(&s, i + 2, e);
                match env.get(name.as_str()) {
                    Some(value) => {
                        push_str(&mut out, value.as_str());
                    },
                    None => {
                        if has_default {
                            let default = string_of(&s, e + 2, b);
                            push_str(&mut out, default.as_str());
                        }
                    },
                }
                proof {
                    assert(t.skip(b + 1 - i) == s@.skip(b + 1));
                }
                i = b + 1;
            },
            None => {
                push_char(&mut out, s[i]);
                proof {
                    assert(t.skip(1) == s@.skip(i + 1));
                }
                i = i + 1;
            },
        }
    }
    proof {
        assert(s@.skip(len as int) == Seq::<char>::empty());
    }
    out
}


// ---------------------------------------------------------------------------
// Laws
// ---------------------------------------------------------------------------

/// `s` holds no `${`, so nothing in it can start a reference.
pub open spec fn has_no_reference(s: Seq<char>) -> bool {
    forall|k: int| 0 <= k < s.len() - 1 ==> !(#[trigger] s[k] == '$' && s[k + 1] == '{')
}

/// Strings without `${` pass through unchanged.
pub proof fn law_text_without_references_unchanged(s: Seq<char>, env: Map<Seq<char>, String>)
    requires
        has_no_reference(s),
    ensures
        resolve_spec(s, env) == s,
    decreases s.len(),
{
    if s.len() > 0 {
        if s.len() >= 2 {
            assert(!(s[0] == '$' && s[1] == '{'));
        }
        assert(reference_at(s) is None);
        let rest = s.skip(1);
        assert(has_no_reference(rest)) by {
            assert forall|k: int| 0 <= k < rest.len() - 1 implies !(#[trigger] rest[k] == '$'
                && rest[k + 1] == '{') by {
                assert(rest[k] == s[k + 1] && rest[k + 1] == s[k + 2]);
            }
        }
        law_text_without_references_unchanged(rest, env);
        assert(s == seq![s[0]] + rest);
    }
}

pub open spec fn is_variable_name(name: Seq<char>) -> bool {
    name.len() > 0 && is_name_start(name[0]) && forall|k: int|
        0 <= k < name.len() ==> is_name_char(#[trigger] name[k])
}

proof fn lemma_name_end_at(s: Seq<char>, i: int, j: int)
    requires
        0 <= i <= j <= s.len(),
        forall|k: int| i <= k < j ==> is_name_char(#[trigger] s[k]),
        j == s.len() || !is_name_char(s[j]),
    ensures
        name_end(s, i) == j,
    decreases j - i,
{
    if i < j {
        lemma_name_end_at(s, i + 1, j);
    }
}

proof fn lemma_close_brace_at(s: Seq<char>, i: int, j: int)
    requires
        0 <= i <= j < s.len(),
        forall|k: int| i <= k < j ==> #[trigger] s[k] != '}',
        s[j] == '}',
    ensures
        close_brace(s, i) == Some(j),
    decreases j - i,
{
    if i < j {
        lemma_close_brace_at(s, i + 1, j);
    }
}

/// A reference `${NAME}` on its own resolves to the variable's value, or to
/// nothing when the variable is unset.
pub proof fn law_single_reference(name: Seq<char>, env: Map<Seq<char>, String>)
    requires
        is_variable_name(name),
    ensures
        resolve_spec(seq!['$', '{'] + name + seq!['}'], env) == substitution(name, None, env),
{
    let s = seq!['$', '{'] + name + seq!['}'];
    let e: int = name.len() as int + 2;
    assert forall|k: int| 3 <= k < e implies is_name_char(#[trigger] s[k]) by {
        assert(s[k] == name[k - 2]);
    }
    assert(s[2] == name[0]);
    lemma_name_end_at(s, 3, e);
    assert(s.subrange(2, e) == name);
    assert(s[e] == '}');
    assert(s.skip(e + 1).len() == 0);
    assert(reference_at(s) == Some((name, None::<Seq<char>>, e + 1)));
    assert(resolve_spec(s.skip(e + 1), env) == Seq::<char>::empty());
    assert(substitution(name, None, env) + Seq::<char>::empty() == substitution(name, None, env));
}

/// A reference with a default, `${NAME:-default}`, on its own resolves to the
/// variable's value, or to the default when the variable is unset; it never
/// leaves the reference itself in the output.
pub proof fn law_single_reference_with_default(
    name: Seq<char>,
    default: Seq<char>,
    env: Map<Seq<char>, String>,
)
    requires
        is_variable_name(name),
        forall|k: int| 0 <= k < default.len() ==> #[trigger] default[k] != '}',
    ensures
        resolve_spec(seq!['$', '{'] + name + seq![':', '-'] + default + seq!['}'], env)
            == substitution(name, Some(default), env),
{
    let s = seq!['$', '{'] + name + seq![':', '-'] + default + seq!['}'];
    let e: int = name.len() as int + 2;
    let b: int = e + 2 + default.len() as int;
    assert forall|k: int| 3 <= k < e implies is_name_char(#[trigger] s[k]) by {
        assert(s[k] == name[k - 2]);
    }
    assert(s[2] == name[0]);
    assert(s[e] == ':');
    lemma_name_end_at(s, 3, e);
    assert forall|k: int| e + 2 <= k < b implies #[trigger] s[k] != '}' by {
        assert(s[k] == default[k - e - 2]);
    }
    assert(s[b] == '}');
    lemma_close_brace_at(s, e + 2, b);
    assert(s.subrange(2, e) == name);
    assert(s.subrange(e + 2, b) == default);
    assert(s.skip(b + 1).len() == 0);
    assert(s[e + 1] == '-');
    assert(reference_at(s) == Some((name, Some(default), b + 1)));
    assert(resolve_spec(s.skip(b + 1), env) == Seq::<char>::empty());
    assert(substitution(name, Some(default), env) + Seq::<char>::empty() == substitution(
        name,
        Some(default),
        env,
    ));
}

/// A reference with a default leaves no `${` in the output when neither the
/// default nor the variable's value holds one.
pub proof fn law_reference_with_default_fully_resolved(
    name: Seq<char>,
    default: Seq<char>,
    env: Map<Seq<char>, String>,
)
    requires
        is_variable_name(name),
        forall|k: int| 0 <= k < default.len() ==> #[trigger] default[k] != '}',
        has_no_reference(default),
        env.contains_key(name) ==> has_no_reference(env[name]@),
    ensures
        has_no_reference(
            resolve_spec(seq!['$', '{'] + name + seq![':', '-'] + default + seq!['}'], env),
        ),
{
    law_single_reference_with_default(name, default, env);
}

/// A name as the configuration format defines it, written out on its own: an
/// ASCII letter or underscore, then ASCII letters, digits or underscores.
pub open spec fn is_ascii_identifier(name: Seq<char>) -> bool {
    &&& name.len() > 0
    &&& ('A' <= name[0] <= 'Z' || 'a' <= name[0] <= 'z' || name[0] == '_')
    &&& forall|k: int|
        0 <= k < name.len() ==> ('A' <= #[trigger] name[k] <= 'Z' || 'a' <= name[k] <= 'z' || '0'
            <= name[k] <= '9' || name[k] == '_')
}

proof fn lemma_ascii_identifier_is_name(name: Seq<char>)
    requires
        is_ascii_identifier(name),
    ensures
        is_variable_name(name),
{
    assert forall|k: int| 0 <= k < name.len() implies is_name_char(#[trigger] name[k]) by {
        assert('A' <= name[k] <= 'Z' || 'a' <= name[k] <= 'z' || '0' <= name[k] <= '9' || name[k]
            == '_');
    }
}

/// Every name made of ASCII letters, digits and underscores that does not
/// start with a digit (such as `S3_BUCKET`) is recognised: `${NAME}` resolves
/// to the variable's value when it is set, and to nothing when it is not.
pub proof fn law_every_identifier_is_resolved(name: Seq<char>, env: Map<Seq<char>, String>)
    requires
        is_ascii_identifier(name),
    ensures
        env.contains_key(name) ==> resolve_spec(seq!['$', '{'] + name + seq!['}'], env) == env[name]@,
        !env.contains_key(name) ==> resolve_spec(seq!['$', '{'] + name + seq!['}'], env)
            == Seq::<char>::empty(),
{
    lemma_ascii_identifier_is_name(name);
    law_single_reference(name, env);
}

/// Every such name is recognised with a default too: `${NAME:-default}`
/// resolves to the variable's value when it is set, and to the default when
/// it is not.
pub proof fn law_every_identifier_with_default_is_resolved(
    name: Seq<char>,
    default: Seq<char>,
    env: Map<Seq<char>, String>,
)
    requires
        is_ascii_identifier(name),
        forall|k: int| 0 <= k < default.len() ==> #[trigger] default[k] != '}',
    ensures
        env.contains_key(name) ==> resolve_spec(
            seq!['$', '{'] + name + seq![':', '-'] + default + seq!['}'],
            env,
        ) == env[name]@,
        !env.contains_key(name) ==> resolve_spec(
            seq!['$', '{'] + name + seq![':', '-'] + default + seq!['}'],
            env,
        ) == default,
{
    lemma_ascii_identifier_is_name(name);
    law_single_reference_with_default(name, default, env);
}

} // verus!
