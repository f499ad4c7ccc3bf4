//! The bundle discovery manifest shared by the language generators: the
//! provided contracts (sorted, without repeats), their function counts, the
//! bundle file table and the dependency tables.
use crate::generators::dependency_tables;
use crate::ir::{PlatformFile, ResolvedBundle, ResolvedBundleFile, ResolvedContract, ResolvedPlugin};
use crate::text::{chars_of, dec_digits, push_chars, push_u32, push_u64, push_usize, slice_chars, str_eq};
use vstd::prelude::*;

verus! {

broadcast use vstd::string::group_string_axioms;

// ─── Ordering of strings ────────────────────────────────────────────────────

/// Lexicographic order of character sequences by code point. On UTF-8 text
/// this is the byte order that `str` comparison uses.
pub open spec fn seq_lt(a: Seq<char>, b: Seq<char>) -> bool
    decreases a.len(),
{
    if a.len() == 0 {
        b.len() > 0
    } else if b.len() == 0 {
        false
    } else if a[0] < b[0] {
        true
    } else if a[0] == b[0] {
        seq_lt(a.drop_first(), b.drop_first())
    } else {
        false
    }
}

/// Whether `a` sorts before `b`.
pub fn str_lt(a: &str, b: &str) -> (r: bool)
    ensures
        r == seq_lt(a@, b@),
{
    let x: Vec<char> = chars_of(a);
    let y: Vec<char> = chars_of(b);
    let mut i: usize = 0;
    assert(x@.skip(0) =~= x@);
    assert(y@.skip(0) =~= y@);
    while i < x.len() && i < y.len()
        invariant
            x@ == a@,
            y@ == b@,
            i <= x@.len(),
            i <= y@.len(),
            seq_lt(a@, b@) == seq_lt(x@.skip(i as int), y@.skip(i as int)),
        decreases x@.len() - i,
    {
        assert(x@.skip(i as int)[0] == x@[i as int]);
        assert(y@.skip(i as int)[0] == y@[i as int]);
        assert(x@.skip(i as int).drop_first() =~= x@.skip(i + 1));
        assert(y@.skip(i as int).drop_first() =~= y@.skip(i + 1));
        if x[i] != y[i] {
            return x[i] < y[i];
        }
        i = i + 1;
    }
    i == x.len() && i < y.len()
}

/// `seq_lt` is irreflexive.
pub proof fn lemma_seq_lt_irreflexive(a: Seq<char>)
    ensures
        !seq_lt(a, a),
    decreases a.len(),
{
    if a.len() > 0 {
        lemma_seq_lt_irreflexive(a.drop_first());
    }
}

/// `seq_lt` is transitive.
pub proof fn lemma_seq_lt_transitive(a: Seq<char>, b: Seq<char>, c: Seq<char>)
    requires
        seq_lt(a, b),
        seq_lt(b, c),
    ensures
        seq_lt(a, c),
    decreases a.len(),
{
    if a.len() > 0 && b.len() > 0 && c.len() > 0 && a[0] == b[0] && b[0] == c[0] {
        lemma_seq_lt_transitive(a.drop_first(), b.drop_first(), c.drop_first());
    }
}

/// Two different sequences are ordered one way or the other.
pub proof fn lemma_seq_lt_total(a: Seq<char>, b: Seq<char>)
    requires
        a != b,
    ensures
        seq_lt(a, b) || seq_lt(b, a),
    decreases a.len(),
{
    if a.len() > 0 && b.len() > 0 {
        if a[0] == b[0] {
            if a.drop_first() == b.drop_first() {
                assert(a =~= seq![a[0]] + a.drop_first());
                assert(b =~= seq![b[0]] + b.drop_first());
            }
            lemma_seq_lt_total(a.drop_first(), b.drop_first());
        }
    } else if a.len() == 0 && b.len() == 0 {
        assert(a =~= b);
    }
}

// ─── Sorting without repeats ────────────────────────────────────────────────

/// `sorted` with `x` put before the first element that sorts after it,
/// unless `x` is met first.
pub open spec fn insert_unique(sorted: Seq<Seq<char>>, x: Seq<char>) -> Seq<Seq<char>>
    decreases sorted.len(),
{
    if sorted.len() == 0 {
        seq![x]
    } else if sorted[0] == x {
        sorted
    } else if seq_lt(x, sorted[0]) {
        seq![x] + sorted
    } else {
        seq![sorted[0]] + insert_unique(sorted.drop_first(), x)
    }
}

/// The elements of `xs` in ascending order, each once.
pub open spec fn sort_unique(xs: Seq<Seq<char>>) -> Seq<Seq<char>>
    decreases xs.len(),
{
    if xs.len() == 0 {
        Seq::<Seq<char>>::empty()
    } else {
        insert_unique(sort_unique(xs.drop_last()), xs.last())
    }
}

/// The characters of each string.
pub open spec fn views(v: Seq<String>) -> Seq<Seq<char>> {
    v.map_values(|s: String| s@)
}

/// Inserts `x` into `v` as `insert_unique` does.
pub fn insert_sorted_unique(v: &mut Vec<String>, x: String)
    ensures
        views(final(v)@) == insert_unique(views(old(v)@), x@),
{
    let ghost s = views(v@);
    let n: usize = v.len();
    let mut i: usize = 0;
    assert(s.skip(0) =~= s);
    assert(s.take(0) =~= Seq::<Seq<char>>::empty());
    while i < n
        invariant
            n == v@.len(),
            s == views(v@),
            i <= n,
            insert_unique(s, x@) == s.take(i as int) + insert_unique(s.skip(i as int), x@),
        ensures
            i <= n,
            insert_unique(s, x@) == s.take(i as int) + insert_unique(s.skip(i as int), x@),
            i < n ==> (s[i as int] == x@ || seq_lt(x@, s[i as int])),
        decreases n - i,
    {
        assert(s.skip(i as int)[0] == v@[i as int]@);
        if str_eq(v[i].as_str(), x.as_str()) {
            break;
        }
        if str_lt(x.as_str(), v[i].as_str()) {
            break;
        }
        assert(s.skip(i as int).drop_first() =~= s.skip(i + 1));
        assert(s.take(i + 1) =~= s.take(i as int) + seq![s[i as int]]);
        i = i + 1;
    }
    if i < n && str_eq(v[i].as_str(), x.as_str()) {
        assert(s.take(i as int) + s.skip(i as int) =~= s);
        return;
    }
    let ghost old_v = v@;
    v.insert(i, x);
    proof {
        if i == n {
            assert(s.skip(i as int) =~= Seq::<Seq<char>>::empty());
        }
        assert(views(v@) =~= s.take(i as int) + (seq![x@] + s.skip(i as int)));
    }
}

/// Sorts `xs` ascending and drops repeats, as `sort_unique` does.
pub fn sort_dedup(xs: Vec<String>) -> (r: Vec<String>)
    ensures
        views(r@) == sort_unique(views(xs@)),
{
    let ghost all = views(xs@);
    let mut r: Vec<String> = Vec::new();
    let n: usize = xs.len();
    let mut i: usize = 0;
    assert(all.take(0) =~= Seq::<Seq<char>>::empty());
    assert(views(r@) =~= Seq::<Seq<char>>::empty());
    while i < n
        invariant
            n == xs@.len(),
            all == views(xs@),
            i <= n,
            views(r@) == sort_unique(all.take(i as int)),
        decreases n - i,
    {
        let mut s: String = String::new();
        s.append(xs[i].as_str());
        insert_sorted_unique(&mut r, s);
        assert(all.take(i + 1).drop_last() =~= all.take(i as int));
        i = i + 1;
    }
    assert(all.take(n as int) =~= all);
    r
}


/// Every element sorts before every later one.
pub open spec fn strictly_ascending(s: Seq<Seq<char>>) -> bool {
    forall|i: int, j: int| 0 <= i < j < s.len() ==> seq_lt(#[trigger] s[i], #[trigger] s[j])
}

proof fn lemma_insert_unique(sorted: Seq<Seq<char>>, x: Seq<char>)
    requires
        strictly_ascending(sorted),
    ensures
        strictly_ascending(insert_unique(sorted, x)),
        forall|e: Seq<char>| #[trigger] insert_unique(sorted, x).contains(e) <==> (sorted.contains(e) || e == x),
    decreases sorted.len(),
{
    let r = insert_unique(sorted, x);
    if sorted.len() == 0 {
        assert forall|e: Seq<char>| #[trigger] r.contains(e) <==> (sorted.contains(e) || e == x) by {
            if r.contains(e) {
                assert(r[0] == x);
            }
            if e == x {
                assert(r[0] == x);
            }
        }
    } else if sorted[0] == x {
    } else if seq_lt(x, sorted[0]) {
        assert forall|i: int, j: int| 0 <= i < j < r.len() implies seq_lt(#[trigger] r[i], #[trigger] r[j]) by {
            if i == 0 {
                if j > 1 {
                    assert(seq_lt(sorted[0], sorted[j - 1]));
                    lemma_seq_lt_transitive(x, sorted[0], sorted[j - 1]);
                }
            } else {
                assert(seq_lt(sorted[i - 1], sorted[j - 1]));
            }
        }
        assert forall|e: Seq<char>| #[trigger] r.contains(e) <==> (sorted.contains(e) || e == x) by {
            if r.contains(e) {
                let k = choose|k: int| 0 <= k < r.len() && r[k] == e;
                if k > 0 {
                    assert(sorted[k - 1] == e);
                }
            }
            if sorted.contains(e) {
                let k = choose|k: int| 0 <= k < sorted.len() && sorted[k] == e;
                assert(r[k + 1] == e);
            }
            if e == x {
                assert(r[0] == x);
            }
        }
    } else {
        lemma_seq_lt_total(x, sorted[0]);
        let tail = sorted.drop_first();
        assert(strictly_ascending(tail)) by {
            assert forall|i: int, j: int| 0 <= i < j < tail.len() implies seq_lt(#[trigger] tail[i], #[trigger] tail[j]) by {
                assert(seq_lt(sorted[i + 1], sorted[j + 1]));
            }
        }
        lemma_insert_unique(tail, x);
        let rest = insert_unique(tail, x);
        assert(r == seq![sorted[0]] + rest);
        assert forall|k: int| 0 <= k < rest.len() implies seq_lt(sorted[0], #[trigger] rest[k]) by {
            assert(rest.contains(rest[k]));
            if rest[k] != x {
                let m = choose|m: int| 0 <= m < tail.len() && tail[m] == rest[k];
                assert(seq_lt(sorted[0], sorted[m + 1]));
            }
        }
        assert forall|i: int, j: int| 0 <= i < j < r.len() implies seq_lt(#[trigger] r[i], #[trigger] r[j]) by {
            if i == 0 {
                assert(r[j] == rest[j - 1]);
            } else {
                assert(r[i] == rest[i - 1]);
                assert(r[j] == rest[j - 1]);
            }
        }
        assert forall|e: Seq<char>| #[trigger] r.contains(e) <==> (sorted.contains(e) || e == x) by {
            if r.contains(e) {
                let k = choose|k: int| 0 <= k < r.len() && r[k] == e;
                if k > 0 {
                    assert(rest[k - 1] == e);
                    assert(rest.contains(e));
                    if tail.contains(e) {
                        let m = choose|m: int| 0 <= m < tail.len() && tail[m] == e;
                        assert(sorted[m + 1] == e);
                    }
                } else {
                    assert(sorted[0] == e);
                }
            }
            if sorted.contains(e) {
                let k = choose|k: int| 0 <= k < sorted.len() && sorted[k] == e;
                if k == 0 {
                    assert(r[0] == e);
                } else {
                    assert(tail[k - 1] == e);
                    assert(rest.contains(e));
                    let m = choose|m: int| 0 <= m < rest.len() && rest[m] == e;
                    assert(r[m + 1] == e);
                }
            }
            if e == x {
                assert(rest.contains(x));
                let m = choose|m: int| 0 <= m < rest.len() && rest[m] == x;
                assert(r[m + 1] == x);
            }
        }
    }
}

/// Sorting without repeats gives an ascending sequence without repeats that
/// holds exactly the elements of its input.
pub proof fn sort_unique_is_sorted_set(xs: Seq<Seq<char>>)
    ensures
        strictly_ascending(sort_unique(xs)),
        forall|e: Seq<char>| #[trigger] sort_unique(xs).contains(e) <==> xs.contains(e),
    decreases xs.len(),
{
    if xs.len() > 0 {
        sort_unique_is_sorted_set(xs.drop_last());
        lemma_insert_unique(sort_unique(xs.drop_last()), xs.last());
        assert forall|e: Seq<char>| #[trigger] sort_unique(xs).contains(e) <==> xs.contains(e) by {
            if xs.drop_last().contains(e) {
                let k = choose|k: int| 0 <= k < xs.drop_last().len() && xs.drop_last()[k] == e;
                assert(xs[k] == e);
            }
            if xs.contains(e) {
                let k = choose|k: int| 0 <= k < xs.len() && xs[k] == e;
                if k < xs.len() - 1 {
                    assert(xs.drop_last()[k] == e);
                }
            }
        }
    }
}


// ─── Provided contracts ─────────────────────────────────────────────────────

/// The position of the first `c` in `s`, or `s.len()` when there is none.
pub open spec fn find_char(s: Seq<char>, c: char) -> int
    decreases s.len(),
{
    if s.len() == 0 {
        0
    } else if s[0] == c {
        0
    } else {
        1 + find_char(s.drop_first(), c)
    }
}

pub proof fn lemma_find_char(s: Seq<char>, c: char)
    ensures
        0 <= find_char(s, c) <= s.len(),
        find_char(s, c) < s.len() ==> s[find_char(s, c)] == c,
        forall|k: int| 0 <= k < find_char(s, c) ==> s[k] != c,
    decreases s.len(),
{
    if s.len() > 0 && s[0] != c {
        lemma_find_char(s.drop_first(), c);
        assert forall|k: int| 0 <= k < find_char(s, c) implies s[k] != c by {
            if k > 0 {
                assert(s[k] == s.drop_first()[k - 1]);
            }
        }
    }
}

pub fn find_char_pos(v: &Vec<char>, lo: usize, c: char) -> (r: usize)
    requires
        lo <= v@.len(),
    ensures
        r == lo + find_char(v@.skip(lo as int), c),
{
    let mut i: usize = lo;
    assert(v@.skip(lo as int).skip(0) =~= v@.skip(lo as int));
    while i < v.len()
        invariant
            lo <= i <= v@.len(),
            lo + find_char(v@.skip(lo as int), c) == i + find_char(v@.skip(i as int), c),
        decreases v@.len() - i,
    {
        assert(v@.skip(i as int)[0] == v@[i as int]);
        assert(v@.skip(i as int).drop_first() =~= v@.skip(i + 1));
        if v[i] == c {
            return i;
        }
        i = i + 1;
    }
    i
}

/// A contract reference `name@major.minor` shortened to `name@major`;
/// anything else unchanged.
pub open spec fn provides_key(s: Seq<char>) -> Seq<char> {
    let a = find_char(s, '@');
    if a == s.len() {
        s
    } else {
        let d = find_char(s.skip(a + 1), '.');
        if d == s.len() - (a + 1) {
            s
        } else {
            s.take(a + 1 + d)
        }
    }
}

/// Builds `provides_key(s)`.
pub fn provides_key_of(s: &str) -> (r: String)
    ensures
        r@ == provides_key(s@),
{
    let v: Vec<char> = chars_of(s);
    assert(v@.skip(0) =~= v@);
    let a: usize = find_char_pos(&v, 0, '@');
    proof {
        lemma_find_char(v@, '@');
    }
    if a == v.len() {
        let mut r: String = String::new();
        r.append(s);
        return r;
    }
    let d: usize = find_char_pos(&v, a + 1, '.');
    proof {
        lemma_find_char(v@.skip(a + 1), '.');
    }
    if d == v.len() {
        let mut r: String = String::new();
        r.append(s);
        return r;
    }
    let t: Vec<char> = slice_chars(&v, 0, d);
    let mut r: String = String::new();
    push_chars(&mut r, &t);
    assert(v@.subrange(0, d as int) =~= v@.take(d as int));
    r
}

/// The provided contract keys of every `implements` entry, plugin by plugin.
pub open spec fn provides_of(plugins: Seq<ResolvedPlugin>) -> Seq<Seq<char>>
    decreases plugins.len(),
{
    if plugins.len() == 0 {
        Seq::<Seq<char>>::empty()
    } else {
        provides_of(plugins.drop_last()) + plugins.last().implements@.map_values(|s: String| provides_key(s@))
    }
}

/// The provided contract keys of the plugins, in order.
pub fn bundle_provides(plugins: &Vec<ResolvedPlugin>) -> (r: Vec<String>)
    ensures
        views(r@) == provides_of(plugins@),
{
    let mut r: Vec<String> = Vec::new();
    let np: usize = plugins.len();
    let mut i: usize = 0;
    assert(views(r@) =~= Seq::<Seq<char>>::empty());
    while i < np
        invariant
            np == plugins@.len(),
            i <= np,
            views(r@) == provides_of(plugins@.take(i as int)),
        decreases np - i,
    {
        let imps: &Vec<String> = &plugins[i].implements;
        let ghost before = views(r@);
        let ni: usize = imps.len();
        let mut j: usize = 0;
        while j < ni
            invariant
                ni == imps@.len(),
                j <= ni,
                views(r@) == before + imps@.take(j as int).map_values(|s: String| provides_key(s@)),
            decreases ni - j,
        {
            let k: String = provides_key_of(imps[j].as_str());
            let ghost prev = views(r@);
            r.push(k);
            assert(views(r@) =~= prev.push(provides_key(imps@[j as int]@)));
            assert(imps@.take(j + 1).map_values(|s: String| provides_key(s@)) =~= imps@.take(j as int).map_values(
                |s: String| provides_key(s@),
            ).push(provides_key(imps@[j as int]@)));
            assert(views(r@) =~= before + imps@.take(j + 1).map_values(|s: String| provides_key(s@)));
            j = j + 1;
        }
        assert(imps@.take(ni as int) =~= imps@);
        assert(plugins@.take(i + 1).drop_last() =~= plugins@.take(i as int));
        i = i + 1;
    }
    assert(plugins@.take(np as int) =~= plugins@);
    r
}

/// `"a", "b", ...` for the strings of `xs`.
pub open spec fn quoted_list(xs: Seq<Seq<char>>) -> Seq<char>
    decreases xs.len(),
{
    if xs.len() == 0 {
        Seq::<char>::empty()
    } else if xs.len() == 1 {
        "\""@ + xs[0] + "\""@
    } else {
        quoted_list(xs.drop_last()) + ", "@ + "\""@ + xs.last() + "\""@
    }
}

/// The TOML array of the provided contracts.
pub open spec fn provides_toml(sorted: Seq<Seq<char>>) -> Seq<char> {
    if sorted.len() == 0 {
        "[]"@
    } else {
        "["@ + quoted_list(sorted) + "]"@
    }
}

fn push_provides_toml(out: &mut String, sorted: &Vec<String>)
    ensures
        final(out)@ == old(out)@ + provides_toml(views(sorted@)),
{
    let ghost vs = views(sorted@);
    let n: usize = sorted.len();
    if n == 0 {
        out.append("[]");
        return;
    }
    out.append("[");
    let ghost start = out@;
    let mut i: usize = 0;
    while i < n
        invariant
            n == sorted@.len(),
            vs == views(sorted@),
            i <= n,
            out@ == start + quoted_list(vs.take(i as int)),
        decreases n - i,
    {
        if i > 0 {
            out.append(", ");
        }
        out.append("\"");
        out.append(sorted[i].as_str());
        out.append("\"");
        proof {
            assert(vs.take(i + 1).drop_last() =~= vs.take(i as int));
            assert(vs[i as int] == sorted@[i as int]@);
            if i == 0 {
                assert(quoted_list(vs.take(0)) =~= Seq::<char>::empty());
            }
        }
        i = i + 1;
    }
    assert(vs.take(n as int) =~= vs);
    out.append("]");
}

/// The key a provided contract is listed under: `name@major`.
pub open spec fn contract_key(c: ResolvedContract) -> Seq<char> {
    c.name@ + "@"@ + dec_digits(c.version.major as nat)
}

/// The contracts, in order, whose key is among `provided`.
pub open spec fn provided_contracts(cs: Seq<ResolvedContract>, provided: Seq<Seq<char>>) -> Seq<ResolvedContract>
    decreases cs.len(),
{
    if cs.len() == 0 {
        Seq::<ResolvedContract>::empty()
    } else if provided.contains(contract_key(cs.last())) {
        provided_contracts(cs.drop_last(), provided).push(cs.last())
    } else {
        provided_contracts(cs.drop_last(), provided)
    }
}

/// `"name@major" = <function count>` for each contract, joined with `", "`.
pub open spec fn count_entries(cs: Seq<ResolvedContract>) -> Seq<char>
    decreases cs.len(),
{
    if cs.len() == 0 {
        Seq::<char>::empty()
    } else {
        let c = cs.last();
        let entry = "\""@ + contract_key(c) + "\" = "@ + dec_digits((c.functions@.len() as u32) as nat);
        if cs.len() == 1 {
            entry
        } else {
            count_entries(cs.drop_last()) + ", "@ + entry
        }
    }
}

fn contains_key(v: &Vec<String>, key: &String) -> (r: bool)
    ensures
        r == views(v@).contains(key@),
{
    let mut i: usize = 0;
    while i < v.len()
        invariant
            i <= v@.len(),
            forall|k: int| 0 <= k < i ==> v@[k]@ != key@,
        decreases v@.len() - i,
    {
        if str_eq(v[i].as_str(), key.as_str()) {
            assert(views(v@)[i as int] == key@);
            return true;
        }
        i = i + 1;
    }
    assert forall|k: int| 0 <= k < views(v@).len() implies views(v@)[k] != key@ by {
        assert(views(v@)[k] == v@[k]@);
    }
    false
}

fn push_function_counts(out: &mut String, contracts: &Vec<ResolvedContract>, sorted: &Vec<String>)
    ensures
        final(out)@ == old(out)@ + "{ "@ + count_entries(provided_contracts(contracts@, views(sorted@))) + " }"@,
{
    let ghost ps = views(sorted@);
    out.append("{ ");
    let ghost start = out@;
    let n: usize = contracts.len();
    let mut i: usize = 0;
    let mut count: usize = 0;
    while i < n
        invariant
            n == contracts@.len(),
            ps == views(sorted@),
            i <= n,
            count == provided_contracts(contracts@.take(i as int), ps).len(),
            count <= i,
            out@ == start + count_entries(provided_contracts(contracts@.take(i as int), ps)),
        decreases n - i,
    {
        let c: &ResolvedContract = &contracts[i];
        let mut key: String = String::new();
        key.append(c.name.as_str());
        key.append("@");
        push_u32(&mut key, c.version.major);
        assert(contracts@.take(i + 1).drop_last() =~= contracts@.take(i as int));
        assert(contracts@.take(i + 1).last() == *c);
        if contains_key(sorted, &key) {
            let ghost prevp = provided_contracts(contracts@.take(i as int), ps);
            assert(provided_contracts(contracts@.take(i + 1), ps) == prevp.push(*c));
            assert(prevp.push(*c).drop_last() =~= prevp);
            if count > 0 {
                out.append(", ");
            }
            out.append("\"");
            out.append(key.as_str());
            out.append("\" = ");
            let fc: u32 = c.functions.len() as u32;
            push_u32(out, fc);
            count = count + 1;
        }
        i = i + 1;
    }
    assert(contracts@.take(n as int) =~= contracts@);
    out.append(" }");
}


// ─── The bundle file table ──────────────────────────────────────────────────

/// A platform entry as `(os, arch, path)`.
pub open spec fn entry_view(p: PlatformFile) -> (Seq<char>, Seq<char>, Seq<char>) {
    (p.os@, p.arch@, p.path@)
}

/// Lexicographic order of entries: by os, then arch, then path.
pub open spec fn entry_lt(a: (Seq<char>, Seq<char>, Seq<char>), b: (Seq<char>, Seq<char>, Seq<char>)) -> bool {
    seq_lt(a.0, b.0) || (a.0 == b.0 && (seq_lt(a.1, b.1) || (a.1 == b.1 && seq_lt(a.2, b.2))))
}

/// `sorted` with `x` put before the first element that does not sort before it.
pub open spec fn insert_entry(sorted: Seq<(Seq<char>, Seq<char>, Seq<char>)>, x: (Seq<char>, Seq<char>, Seq<char>)) -> Seq<(Seq<char>, Seq<char>, Seq<char>)>
    decreases sorted.len(),
{
    if sorted.len() == 0 {
        seq![x]
    } else if !entry_lt(sorted[0], x) {
        seq![x] + sorted
    } else {
        seq![sorted[0]] + insert_entry(sorted.drop_first(), x)
    }
}

/// The entries in ascending order.
pub open spec fn sort_entries(xs: Seq<(Seq<char>, Seq<char>, Seq<char>)>) -> Seq<(Seq<char>, Seq<char>, Seq<char>)>
    decreases xs.len(),
{
    if xs.len() == 0 {
        xs
    } else {
        insert_entry(sort_entries(xs.drop_last()), xs.last())
    }
}

fn entry_less(a: &PlatformFile, b: &PlatformFile) -> (r: bool)
    ensures
        r == entry_lt(entry_view(*a), entry_view(*b)),
{
    if str_lt(a.os.as_str(), b.os.as_str()) {
        true
    } else if str_eq(a.os.as_str(), b.os.as_str()) {
        if str_lt(a.arch.as_str(), b.arch.as_str()) {
            true
        } else if str_eq(a.arch.as_str(), b.arch.as_str()) {
            str_lt(a.path.as_str(), b.path.as_str())
        } else {
            false
        }
    } else {
        false
    }
}

/// The views of a list of entries.
pub open spec fn entry_views(v: Seq<&PlatformFile>) -> Seq<(Seq<char>, Seq<char>, Seq<char>)> {
    v.map_values(|p: &PlatformFile| entry_view(*p))
}

fn sorted_entries(map: &Vec<PlatformFile>) -> (r: Vec<&PlatformFile>)
    ensures
        entry_views(r@) == sort_entries(map@.map_values(|p: PlatformFile| entry_view(p))),
{
    let ghost all = map@.map_values(|p: PlatformFile| entry_view(p));
    let mut r: Vec<&PlatformFile> = Vec::new();
    let n: usize = map.len();
    let mut i: usize = 0;
    assert(all.take(0) =~= Seq::<(Seq<char>, Seq<char>, Seq<char>)>::empty());
    assert(entry_views(r@) =~= all.take(0));
    while i < n
        invariant
            n == map@.len(),
            all == map@.map_values(|p: PlatformFile| entry_view(p)),
            i <= n,
            entry_views(r@) == sort_entries(all.take(i as int)),
        decreases n - i,
    {
        let x: &PlatformFile = &map[i];
        let ghost s = entry_views(r@);
        let m: usize = r.len();
        let mut j: usize = 0;
        assert(s.skip(0) =~= s);
        assert(s.take(0) =~= Seq::<(Seq<char>, Seq<char>, Seq<char>)>::empty());
        while j < m && entry_less(r[j], x)
            invariant
                m == r@.len(),
                s == entry_views(r@),
                j <= m,
                insert_entry(s, entry_view(*x)) == s.take(j as int) + insert_entry(s.skip(j as int), entry_view(*x)),
            decreases m - j,
        {
            assert(s.skip(j as int)[0] == entry_view(*r@[j as int]));
            assert(s.skip(j as int).drop_first() =~= s.skip(j + 1));
            assert(s.take(j + 1) =~= s.take(j as int) + seq![s[j as int]]);
            j = j + 1;
        }
        proof {
            if j < m {
                assert(s.skip(j as int)[0] == entry_view(*r@[j as int]));
            } else {
                assert(s.skip(j as int) =~= Seq::<(Seq<char>, Seq<char>, Seq<char>)>::empty());
            }
        }
        r.insert(j, x);
        assert(entry_views(r@) =~= s.take(j as int) + (seq![entry_view(*x)] + s.skip(j as int)));
        assert(all.take(i + 1).drop_last() =~= all.take(i as int));
        assert(all[i as int] == entry_view(*x));
        i = i + 1;
    }
    assert(all.take(n as int) =~= all);
    r
}

/// `[file]` and one `os.arch = "path"` line per entry, in order.
pub open spec fn file_lines(acc: Seq<char>, es: Seq<(Seq<char>, Seq<char>, Seq<char>)>) -> Seq<char>
    decreases es.len(),
{
    if es.len() == 0 {
        acc
    } else {
        let e = es.last();
        file_lines(acc, es.drop_last()) + "\n"@ + e.0 + "."@ + e.1 + " = \""@ + e.2 + "\""@
    }
}

/// The manifest's file field: one path, or a table sorted by os, arch, path.
pub open spec fn file_field(f: ResolvedBundleFile) -> Seq<char> {
    match f {
        ResolvedBundleFile::Single(path) => "file = \""@ + path@ + "\""@,
        ResolvedBundleFile::PlatformMap(map) => file_lines("[file]"@, sort_entries(map@.map_values(|p: PlatformFile| entry_view(p)))),
    }
}

/// Format the manifest file field of a bundle.
pub fn format_manifest_file_field(file: &ResolvedBundleFile) -> (r: String)
    ensures
        r@ == file_field(*file),
{
    match file {
        ResolvedBundleFile::Single(path) => {
            let mut r: String = String::new();
            r.append("file = \"");
            r.append(path.as_str());
            r.append("\"");
            r
        },
        ResolvedBundleFile::PlatformMap(map) => {
            let entries: Vec<&PlatformFile> = sorted_entries(map);
            let ghost es = entry_views(entries@);
            let mut r: String = String::new();
            r.append("[file]");
            let n: usize = entries.len();
            let mut i: usize = 0;
            while i < n
                invariant
                    n == entries@.len(),
                    es == entry_views(entries@),
                    i <= n,
                    r@ == file_lines("[file]"@, es.take(i as int)),
                decreases n - i,
            {
                let e: &PlatformFile = entries[i];
                r.append("\n");
                r.append(e.os.as_str());
                r.append(".");
                r.append(e.arch.as_str());
                r.append(" = \"");
                r.append(e.path.as_str());
                r.append("\"");
                assert(es.take(i + 1).drop_last() =~= es.take(i as int));
                assert(es[i as int] == entry_view(*e));
                i = i + 1;
            }
            assert(es.take(n as int) =~= es);
            r
        },
    }
}

// ─── The manifest ───────────────────────────────────────────────────────────

/// The first line of every generated manifest.
pub const MANIFEST_HEAD: &'static str = "# THIS FILE IS AUTO-GENERATED BY polyplugc. DO NOT EDIT.\n";

/// What a manifest says in place of the bundle fields when there is no bundle.
pub const MANIFEST_NO_BUNDLE: &'static str = "# ERROR: bundle manifest called without bundle IR\n";

/// `true` or `false`.
pub open spec fn bool_text(b: bool) -> Seq<char> {
    if b {
        "true"@
    } else {
        "false"@
    }
}

/// The discovery manifest of bundle `b` over `contracts`, with `origin` (the
/// loader or runtime line) after the version.
pub open spec fn bundle_manifest(b: ResolvedBundle, contracts: Seq<ResolvedContract>, origin: Seq<char>) -> Seq<char> {
    let provided = sort_unique(provides_of(b.plugins@));
    MANIFEST_HEAD@ + "name = \""@ + b.name@ + "\"\n"@ + "id = "@ + dec_digits(b.bundle_id as nat) + "\n"@
        + "version = \""@ + dec_digits(b.version.major as nat) + "."@ + dec_digits(b.version.minor as nat) + "."@
        + dec_digits(b.version.patch as nat) + "\"\n"@ + origin + "provides = "@ + provides_toml(provided) + "\n"@
        + "function_count = "@ + "{ "@ + count_entries(provided_contracts(contracts, provided)) + " }"@ + "\n"@
        + "needs_reinit_on_dep_reload = "@ + bool_text(b.needs_reinit_on_dep_reload) + "\n"@ + file_field(b.file) + "\n"@
        + dependency_tables(b.dependencies@)
}

/// Builds `bundle_manifest(*b, contracts@, origin@)`.
pub fn render_bundle_manifest(b: &ResolvedBundle, contracts: &Vec<ResolvedContract>, origin: &str) -> (r: String)
    ensures
        r@ == bundle_manifest(*b, contracts@, origin@),
{
    let provided: Vec<String> = sort_dedup(bundle_provides(&b.plugins));
    let mut out: String = String::new();
    out.append(MANIFEST_HEAD);
    out.append("name = \"");
    out.append(b.name.as_str());
    out.append("\"\n");
    out.append("id = ");
    push_u64(&mut out, b.bundle_id);
    out.append("\n");
    out.append("version = \"");
    push_u32(&mut out, b.version.major);
    out.append(".");
    push_u32(&mut out, b.version.minor);
    out.append(".");
    push_u32(&mut out, b.version.patch);
    out.append("\"\n");
    out.append(origin);
    out.append("provides = ");
    push_provides_toml(&mut out, &provided);
    out.append("\n");
    out.append("function_count = ");
    push_function_counts(&mut out, contracts, &provided);
    out.append("\n");
    out.append("needs_reinit_on_dep_reload = ");
    if b.needs_reinit_on_dep_reload {
        out.append("true");
    } else {
        out.append("false");
    }
    out.append("\n");
    let ff: String = format_manifest_file_field(&b.file);
    out.append(ff.as_str());
    out.append("\n");
    let deps: String = crate::generators::emit_manifest_dependencies(&b.dependencies);
    out.append(deps.as_str());
    out
}

} // verus!
