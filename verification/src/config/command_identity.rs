//! The text that identifies a command for trust decisions: the command line,
//! its working directory and its environment, with the environment sorted by
//! variable name so that the text does not depend on insertion order.
use vstd::prelude::*;
use vstd::string::StringSliceAdditionalSpecFns;
use vstd::utf8::encode_utf8;

use crate::collections::NamedMap;
use crate::text::{lemma_encode_utf8_injective, push_str, to_owned_string};

verus! {

/// Lexicographic order on byte strings (a proper prefix comes first).
pub open spec fn bytes_lt(a: Seq<u8>, b: Seq<u8>) -> bool
    decreases a.len(),
{
    if a.len() == 0 {
        b.len() > 0
    } else if b.len() == 0 {
        false
    } else if a[0] != b[0] {
        a[0] < b[0]
    } else {
        bytes_lt(a.drop_first(), b.drop_first())
    }
}

/// The order of `String`: lexicographic on the UTF-8 bytes.
pub open spec fn str_lt(a: Seq<char>, b: Seq<char>) -> bool {
    bytes_lt(encode_utf8(a), encode_utf8(b))
}

pub proof fn lemma_bytes_lt_irreflexive(a: Seq<u8>)
    ensures
        !bytes_lt(a, a),
    decreases a.len(),
{
    if a.len() > 0 {
        lemma_bytes_lt_irreflexive(a.drop_first());
    }
}

pub proof fn lemma_bytes_lt_transitive(a: Seq<u8>, b: Seq<u8>, c: Seq<u8>)
    requires
        bytes_lt(a, b),
        bytes_lt(b, c),
    ensures
        bytes_lt(a, c),
    decreases a.len(),
{
    if a.len() > 0 && b.len() > 0 && c.len() > 0 && a[0] == b[0] && b[0] == c[0] {
        lemma_bytes_lt_transitive(a.drop_first(), b.drop_first(), c.drop_first());
    }
}

pub proof fn lemma_bytes_lt_total(a: Seq<u8>, b: Seq<u8>)
    requires
        a != b,
    ensures
        bytes_lt(a, b) || bytes_lt(b, a),
    decreases a.len(),
{
    if a.len() == 0 && b.len() == 0 {
        assert(a =~= b);
    }
    if a.len() > 0 && b.len() > 0 && a[0] == b[0] {
        if a.drop_first() == b.drop_first() {
            assert(a == seq![a[0]] + a.drop_first());
            assert(b == seq![b[0]] + b.drop_first());
            assert(a =~= b);
        } else {
            lemma_bytes_lt_total(a.drop_first(), b.drop_first());
        }
    }
}

pub proof fn lemma_str_lt_total(a: Seq<char>, b: Seq<char>)
    requires
        a != b,
    ensures
        str_lt(a, b) || str_lt(b, a),
{
    if encode_utf8(a) == encode_utf8(b) {
        lemma_encode_utf8_injective(a, b);
    }
    lemma_bytes_lt_total(encode_utf8(a), encode_utf8(b));
}

/// Compares two strings in `String` order.
pub fn str_less(a: &str, b: &str) -> (r: bool)
    ensures
        r == str_lt(a@, b@),
{
    let x = a.as_bytes();
    let y = b.as_bytes();
    let mut i: usize = 0;
    assert(x@.skip(0) == x@ && y@.skip(0) == y@);
    while i < x.len() && i < y.len() && x[i] == y[i]
        invariant
            x@ == a.spec_bytes(),
            y@ == b.spec_bytes(),
            i <= x@.len(),
            i <= y@.len(),
            bytes_lt(x@, y@) == bytes_lt(x@.skip(i as int), y@.skip(i as int)),
        decreases x@.len() - i,
    {
        proof {
            assert(x@.skip(i as int).drop_first() == x@.skip(i + 1));
            assert(y@.skip(i as int).drop_first() == y@.skip(i + 1));
        }
        i = i + 1;
    }
    if i == x.len() {
        i < y.len()
    } else if i == y.len() {
        false
    } else {
        x[i] < y[i]
    }
}

/// Environment entries, as (name, value) pairs.
pub type EnvEntries = Seq<(Seq<char>, Seq<char>)>;

pub open spec fn sorted_by_name(s: EnvEntries) -> bool {
    forall|i: int, j: int| 0 <= i < j < s.len() ==> str_lt(#[trigger] s[i].0, #[trigger] s[j].0)
}

/// `s` lists exactly the entries of `m`.
pub open spec fn lists_map(s: EnvEntries, m: Map<Seq<char>, String>) -> bool {
    &&& forall|i: int| 0 <= i < s.len() ==> #[trigger] m.contains_key(s[i].0) && m[s[i].0]@ == s[i].1
    &&& forall|k: Seq<char>| #[trigger] m.contains_key(k) ==> exists|i: int| 0 <= i < s.len() && #[trigger] s[i].0 == k
}

/// The entries of `m` in increasing order of name.
pub open spec fn sorted_entries(m: Map<Seq<char>, String>) -> EnvEntries {
    choose|s: EnvEntries| sorted_by_name(s) && lists_map(s, m)
}

/// A map is listed by at most one sorted sequence.
pub proof fn lemma_sorted_listing_unique(
    s1: EnvEntries,
    s2: EnvEntries,
    m: Map<Seq<char>, String>,
)
    requires
        sorted_by_name(s1),
        sorted_by_name(s2),
        lists_map(s1, m),
        lists_map(s2, m),
    ensures
        s1 == s2,
    decreases s1.len(),
{
    if s1.len() == 0 {
        if s2.len() > 0 {
            assert(m.contains_key(s2[0].0));
        }
        assert(s1 =~= s2);
        return;
    }
    assert(m.contains_key(s1[0].0));
    if s2.len() == 0 {
        return;
    }
    let k = s1[0].0;
    let j = choose|j: int| 0 <= j < s2.len() && #[trigger] s2[j].0 == k;
    assert(m.contains_key(s2[0].0));
    let i = choose|i: int| 0 <= i < s1.len() && #[trigger] s1[i].0 == s2[0].0;
    if j > 0 {
        // s2[0] < s2[j] == s1[0], and s1[0] <= s1[i] == s2[0]
        assert(str_lt(s2[0].0, s2[j].0));
        if i == 0 {
            lemma_bytes_lt_irreflexive(encode_utf8(k));
        } else {
            assert(str_lt(s1[0].0, s1[i].0));
            lemma_bytes_lt_transitive(
                encode_utf8(s1[0].0),
                encode_utf8(s2[0].0),
                encode_utf8(s1[0].0),
            );
            lemma_bytes_lt_irreflexive(encode_utf8(k));
        }
    }
    assert(s1[0] == s2[0]);
    let t1 = s1.drop_first();
    let t2 = s2.drop_first();
    let m2 = m.remove(k);
    assert forall|a: int| 0 <= a < t1.len() implies #[trigger] m2.contains_key(t1[a].0) && m2[t1[a].0]@
        == t1[a].1 by {
        assert(t1[a] == s1[a + 1]);
        assert(str_lt(s1[0].0, s1[a + 1].0));
        if t1[a].0 == k {
            lemma_bytes_lt_irreflexive(encode_utf8(k));
        }
    }
    assert forall|kk: Seq<char>| #[trigger] m2.contains_key(kk) implies exists|a: int|
        0 <= a < t1.len() && #[trigger] t1[a].0 == kk by {
        let a = choose|a: int| 0 <= a < s1.len() && #[trigger] s1[a].0 == kk;
        assert(a > 0);
        assert(t1[a - 1].0 == kk);
    }
    assert forall|a: int| 0 <= a < t2.len() implies #[trigger] m2.contains_key(t2[a].0) && m2[t2[a].0]@
        == t2[a].1 by {
        assert(t2[a] == s2[a + 1]);
        assert(str_lt(s2[0].0, s2[a + 1].0));
        if t2[a].0 == k {
            lemma_bytes_lt_irreflexive(encode_utf8(k));
        }
    }
    assert forall|kk: Seq<char>| #[trigger] m2.contains_key(kk) implies exists|a: int|
        0 <= a < t2.len() && #[trigger] t2[a].0 == kk by {
        let a = choose|a: int| 0 <= a < s2.len() && #[trigger] s2[a].0 == kk;
        assert(a > 0);
        assert(t2[a - 1].0 == kk);
    }
    assert(sorted_by_name(t1)) by {
        assert forall|a: int, b: int| 0 <= a < b < t1.len() implies str_lt(
            #[trigger] t1[a].0,
            #[trigger] t1[b].0,
        ) by {
            assert(t1[a] == s1[a + 1] && t1[b] == s1[b + 1]);
        }
    }
    assert(sorted_by_name(t2)) by {
        assert forall|a: int, b: int| 0 <= a < b < t2.len() implies str_lt(
            #[trigger] t2[a].0,
            #[trigger] t2[b].0,
        ) by {
            assert(t2[a] == s2[a + 1] && t2[b] == s2[b + 1]);
        }
    }
    lemma_sorted_listing_unique(t1, t2, m2);
    assert(s1 == seq![s1[0]] + t1);
    assert(s2 == seq![s2[0]] + t2);
}

/// Names in `e` are distinct.
#[verifier::opaque]
pub closed spec fn names_distinct(e: EnvEntries) -> bool {
    forall|i: int, j: int| 0 <= i < e.len() && 0 <= j < e.len() && i != j ==> #[trigger] e[i].0
        != #[trigger] e[j].0
}

/// Every entry of `pv` is one of the first `t` entries of `e`.
#[verifier::opaque]
pub closed spec fn drawn_from(pv: EnvEntries, e: EnvEntries, t: int) -> bool {
    forall|i: int| #![trigger pv[i]] 0 <= i < pv.len() ==> exists|j: int| 0 <= j < t && #[trigger] e[j] == pv[i]
}

/// Every one of the first `t` names of `e` occurs in `pv`.
#[verifier::opaque]
pub closed spec fn names_cover(pv: EnvEntries, e: EnvEntries, t: int) -> bool {
    forall|j: int| #![trigger e[j]] 0 <= j < t ==> exists|i: int| 0 <= i < pv.len() && #[trigger] pv[i].0 == e[j].0
}

proof fn lemma_new_name(pb: EnvEntries, e: EnvEntries, t: int)
    requires
        names_distinct(e),
        0 <= t < e.len(),
        drawn_from(pb, e, t),
    ensures
        forall|a: int| 0 <= a < pb.len() ==> (#[trigger] pb[a]).0 != e[t].0,
{
    reveal(names_distinct);
    reveal(drawn_from);
    assert forall|a: int| 0 <= a < pb.len() implies (#[trigger] pb[a]).0 != e[t].0 by {
        let j = choose|j: int| 0 <= j < t && #[trigger] e[j] == pb[a];
        assert(e[j].0 != e[t].0);
    }
}

proof fn lemma_sorted_insert(pb: EnvEntries, x: (Seq<char>, Seq<char>), p: int)
    requires
        sorted_by_name(pb),
        0 <= p <= pb.len(),
        forall|a: int| 0 <= a < p ==> str_lt((#[trigger] pb[a]).0, x.0),
        p < pb.len() ==> str_lt(x.0, pb[p].0),
    ensures
        sorted_by_name(pb.insert(p, x)),
{
    let pv = pb.insert(p, x);
    assert forall|a: int, b: int| 0 <= a < b < pv.len() implies str_lt(
        #[trigger] pv[a].0,
        #[trigger] pv[b].0,
    ) by {
        if b < p {
            assert(pv[a] == pb[a] && pv[b] == pb[b]);
        } else if b == p {
            assert(pv[a] == pb[a]);
        } else if a == p {
            assert(pv[b] == pb[b - 1]);
            if b - 1 > p {
                assert(str_lt(pb[p].0, pb[b - 1].0));
                lemma_bytes_lt_transitive(
                    encode_utf8(x.0),
                    encode_utf8(pb[p].0),
                    encode_utf8(pb[b - 1].0),
                );
            }
        } else if a < p {
            assert(pv[a] == pb[a] && pv[b] == pb[b - 1]);
        } else {
            assert(pv[a] == pb[a - 1] && pv[b] == pb[b - 1]);
        }
    }
}

proof fn lemma_drawn_insert(pb: EnvEntries, e: EnvEntries, t: int, p: int)
    requires
        0 <= t < e.len(),
        drawn_from(pb, e, t),
        0 <= p <= pb.len(),
    ensures
        drawn_from(pb.insert(p, e[t]), e, t + 1),
{
    reveal(drawn_from);
    let pv = pb.insert(p, e[t]);
    assert forall|i: int| #![trigger pv[i]] 0 <= i < pv.len() implies exists|j: int|
        0 <= j < t + 1 && #[trigger] e[j] == pv[i] by {
        if i < p {
            assert(pv[i] == pb[i]);
            let j = choose|j: int| 0 <= j < t && #[trigger] e[j] == pb[i];
            assert(e[j] == pv[i]);
        } else if i == p {
            assert(e[t] == pv[i]);
        } else {
            assert(pv[i] == pb[i - 1]);
            let j = choose|j: int| 0 <= j < t && #[trigger] e[j] == pb[i - 1];
            assert(e[j] == pv[i]);
        }
    }
}

proof fn lemma_cover_insert(pb: EnvEntries, e: EnvEntries, t: int, p: int)
    requires
        0 <= t < e.len(),
        names_cover(pb, e, t),
        0 <= p <= pb.len(),
    ensures
        names_cover(pb.insert(p, e[t]), e, t + 1),
{
    reveal(names_cover);
    let pv = pb.insert(p, e[t]);
    assert(pv.len() == pb.len() + 1);
    assert forall|j: int| #![trigger e[j]] 0 <= j < t + 1 implies exists|i: int|
        0 <= i < pv.len() && #[trigger] pv[i].0 == e[j].0 by {
        if j < t {
            let ej = e[j];
            let i = choose|i: int| 0 <= i < pb.len() && #[trigger] pb[i].0 == e[j].0;
            if i < p {
                assert(pv[i] == pb[i]);
                assert(pv[i].0 == e[j].0);
            } else {
                assert(pv[i + 1] == pb[i]);
                assert(pv[i + 1].0 == e[j].0);
            }
        } else {
            assert(pv[p] == e[t]);
            assert(pv[p].0 == e[j].0);
        }
    }
    assert(names_cover(pv, e, t + 1));
}

proof fn lemma_sorted_listing(pv: EnvEntries, e: EnvEntries, m: Map<Seq<char>, String>)
    requires
        sorted_by_name(pv),
        drawn_from(pv, e, e.len() as int),
        names_cover(pv, e, e.len() as int),
        forall|k: Seq<char>| #[trigger]
            m.contains_key(k) <==> exists|j: int| 0 <= j < e.len() && #[trigger] e[j].0 == k,
        forall|j: int| 0 <= j < e.len() ==> #[trigger] m[e[j].0]@ == e[j].1,
    ensures
        pv == sorted_entries(m),
{
    reveal(drawn_from);
    reveal(names_cover);
    assert forall|i: int| #![trigger pv[i]] 0 <= i < pv.len() implies m.contains_key(pv[i].0) && m[pv[i].0]@
        == pv[i].1 by {
        let j = choose|j: int| 0 <= j < e.len() && #[trigger] e[j] == pv[i];
        assert(e[j].0 == pv[i].0);
        assert(m[e[j].0]@ == e[j].1);
    }
    assert forall|k: Seq<char>| #[trigger] m.contains_key(k) implies exists|i: int|
        0 <= i < pv.len() && #[trigger] pv[i].0 == k by {
        let j = choose|j: int| 0 <= j < e.len() && #[trigger] e[j].0 == k;
        let i = choose|i: int| 0 <= i < pv.len() && #[trigger] pv[i].0 == e[j].0;
    }
    let c = sorted_entries(m);
    assert(sorted_by_name(c) && lists_map(c, m));
    lemma_sorted_listing_unique(pv, c, m);
}

pub open spec fn pair_views(s: Seq<(String, String)>) -> EnvEntries {
    s.map_values(|e: (String, String)| (e.0@, e.1@))
}

/// The entries of `env` as owned pairs, sorted by name.
pub fn sorted_env(env: &NamedMap<String>) -> (r: Vec<(String, String)>)
    ensures
        pair_views(r@) == sorted_entries(env@),
{
    let mut out: Vec<(String, String)> = Vec::new();
    let n = env.len();
    let ghost e = pair_views(env.entries());
    proof {
        use_type_invariant(env);
        env.lemma_view();
        reveal(names_distinct);
        reveal(drawn_from);
        reveal(names_cover);
        assert forall|i: int, j: int| 0 <= i < e.len() && 0 <= j < e.len() && i != j implies #[trigger] e[i].0
            != #[trigger] e[j].0 by {
            assert(e[i].0 == env.entries()[i].0@ && e[j].0 == env.entries()[j].0@);
        }
    }
    let mut t: usize = 0;
    while t < n
        invariant
            n == env.entries().len(),
            e == pair_views(env.entries()),
            names_distinct(e),
            t <= n,
            sorted_by_name(pair_views(out@)),
            drawn_from(pair_views(out@), e, t as int),
            names_cover(pair_views(out@), e, t as int),
        decreases n - t,
    {
        let key = env.key_at(t);
        let value = env.value_at(t);
        // position of the first entry whose name is not below `key`
        let mut p: usize = 0;
        while p < out.len() && str_less(out[p].0.as_str(), key.as_str())
            invariant
                p <= out@.len(),
                forall|a: int| 0 <= a < p ==> str_lt((#[trigger] out@[a]).0@, key@),
            decreases out@.len() - p,
        {
            p = p + 1;
        }
        let ghost pb = pair_views(out@);
        proof {
            assert(e[t as int] == (key@, value@));
            assert forall|a: int| 0 <= a < p implies str_lt((#[trigger] pb[a]).0, e[t as int].0) by {
                assert(pb[a].0 == out@[a].0@);
            }
            lemma_new_name(pb, e, t as int);
            if p < out@.len() {
                assert(pb[p as int].0 == out@[p as int].0@);
                assert(pb[p as int].0 != e[t as int].0);
                lemma_str_lt_total(pb[p as int].0, e[t as int].0);
            }
            lemma_sorted_insert(pb, e[t as int], p as int);
            lemma_drawn_insert(pb, e, t as int, p as int);
            lemma_cover_insert(pb, e, t as int, p as int);
        }
        out.insert(p, (to_owned_string(key.as_str()), to_owned_string(value.as_str())));
        proof {
            assert(pair_views(out@) =~= pb.insert(p as int, e[t as int]));
        }
        t = t + 1;
    }
    proof {
        use_type_invariant(env);
        env.lemma_view();
        assert forall|k: Seq<char>| #[trigger] env@.contains_key(k) <==> exists|j: int|
            0 <= j < e.len() && #[trigger] e[j].0 == k by {
            if env@.contains_key(k) {
                let j = choose|j: int| 0 <= j < env.entries().len() && #[trigger] env.entries()[j].0@ == k;
                assert(e[j].0 == k);
            }
            if exists|j: int| 0 <= j < e.len() && #[trigger] e[j].0 == k {
                let j = choose|j: int| 0 <= j < e.len() && #[trigger] e[j].0 == k;
                assert(env.entries()[j].0@ == k);
            }
        }
        assert forall|j: int| 0 <= j < e.len() implies #[trigger] env@[e[j].0]@ == e[j].1 by {
            assert(env@.contains_key(env.entries()[j].0@));
            assert(env@[env.entries()[j].0@] == env.entries()[j].1);
        }
        lemma_sorted_listing(pair_views(out@), e, env@);
    }
    out
}


/// The `Debug` rendering of a string: quoted and escaped.
pub uninterp spec fn debug_str(s: Seq<char>) -> Seq<char>;

/// `format!("{:?}", s)`: the `Debug` rendering of a string slice.
#[verifier::external_body]
fn debug_string(s: &str) -> (r: String)
    ensures
        r@ == debug_str(s@),
{
    format!("{:?}", s)
}

/// The `Debug` rendering of the entries, as a map: `{"K": "v", "L": "w"}`.
pub open spec fn debug_entries(s: EnvEntries) -> Seq<char>
    decreases s.len(),
{
    if s.len() == 0 {
        Seq::empty()
    } else {
        let last = debug_str(s.last().0) + ": "@ + debug_str(s.last().1);
        if s.len() == 1 {
            last
        } else {
            debug_entries(s.drop_last()) + ", "@ + last
        }
    }
}

pub open spec fn debug_map(s: EnvEntries) -> Seq<char> {
    "{"@ + debug_entries(s) + "}"@
}

/// The identifying text of a command.
pub open spec fn command_identity_spec(
    command: Seq<char>,
    working_dir: Option<Seq<char>>,
    env: Map<Seq<char>, String>,
) -> Seq<char> {
    let dir = match working_dir {
        Some(d) => d,
        None => "."@,
    };
    "cmd:"@ + command + "\ndir:"@ + dir + "\nenv:"@ + debug_map(sorted_entries(env))
}

pub open spec fn opt_view(o: Option<&str>) -> Option<Seq<char>> {
    match o {
        Some(s) => Some(s@),
        None => None,
    }
}

/// `cmd:<command>\ndir:<working dir or .>\nenv:<environment sorted by name>`.
pub fn command_identity(command: &str, working_dir: Option<&str>, env: &NamedMap<String>) -> (r:
    String)
    ensures
        r@ == command_identity_spec(command@, opt_view(working_dir), env@),
{
    let sorted = sorted_env(env);
    let mut s = String::new();
    push_str(&mut s, "cmd:");
    push_str(&mut s, command);
    push_str(&mut s, "\ndir:");
    match working_dir {
        Some(d) => push_str(&mut s, d),
        None => push_str(&mut s, "."),
    }
    push_str(&mut s, "\nenv:");
    push_str(&mut s, "{");
    let ghost start = s@;
    let mut i: usize = 0;
    while i < sorted.len()
        invariant
            i <= sorted@.len(),
            s@ == start + debug_entries(pair_views(sorted@).take(i as int)),
        decreases sorted@.len() - i,
    {
        let ghost pv = pair_views(sorted@);
        if i > 0 {
            push_str(&mut s, ", ");
        }
        let k = debug_string(sorted[i].0.as_str());
        let v = debug_string(sorted[i].1.as_str());
        push_str(&mut s, k.as_str());
        push_str(&mut s, ": ");
        push_str(&mut s, v.as_str());
        proof {
            reveal_strlit(", ");
            reveal_strlit(": ");
            let p = pv.take(i + 1);
            assert(p.drop_last() == pv.take(i as int));
            assert(p.last() == pv[i as int]);
            if i == 0 {
                assert(pv.take(0).len() == 0);
            }
        }
        i = i + 1;
    }
    push_str(&mut s, "}");
    proof {
        reveal_strlit("cmd:");
        reveal_strlit("\ndir:");
        reveal_strlit(".");
        reveal_strlit("\nenv:");
        reveal_strlit("{");
        reveal_strlit("}");
        assert(pair_views(sorted@).take(sorted@.len() as int) == pair_views(sorted@));
    }
    s
}

} // verus!
