//! Enum value expressions: substituting references to earlier variants, and
//! the operator rewriting LuaJIT needs (`|`, `<<`, `~` become `bit.*` calls).
use crate::ir::EnumVariant;
use crate::text::{
    chars_of, ident_end, ident_start, is_alphabetic, lemma_ident_end_bounds, lemma_trim_len,
    push_char, push_chars, scan_ident, slice_chars, str_eq, trim, trim_chars,
};
use vstd::prelude::*;

verus! {

// ─── Variant references ─────────────────────────────────────────────────────

/// The first variant named `name`.
pub open spec fn find_variant(vars: Seq<EnumVariant>, name: Seq<char>) -> Option<EnumVariant>
    decreases vars.len(),
{
    if vars.len() == 0 {
        None
    } else if vars[0].name@ == name {
        Some(vars[0])
    } else {
        find_variant(vars.drop_first(), name)
    }
}

/// What a reference to variant `v` becomes: its value in parentheses, or,
/// for C++ (`cast` = repr and enum name), a cast of the scoped enumerator.
pub open spec fn ref_replacement(v: EnumVariant, cast: Option<(Seq<char>, Seq<char>)>) -> Seq<char> {
    match cast {
        None => "("@ + v.value@ + ")"@,
        Some((repr, enum_name)) => "static_cast<"@ + repr + ">("@ + enum_name + "::"@ + v.name@ + ")"@,
    }
}

/// `s[i..]` with every identifier that names a declared variant replaced.
pub open spec fn subst_from(vars: Seq<EnumVariant>, s: Seq<char>, i: int, cast: Option<(Seq<char>, Seq<char>)>) -> Seq<char>
    decreases s.len() - i,
{
    if i < 0 || i >= s.len() {
        Seq::<char>::empty()
    } else if ident_start(s[i]) {
        let j = ident_end(s, i);
        if j <= i || j > s.len() {
            Seq::<char>::empty()
        } else {
            let ident = s.subrange(i, j);
            let head = match find_variant(vars, ident) {
                Some(v) => ref_replacement(v, cast),
                None => ident,
            };
            head + subst_from(vars, s, j, cast)
        }
    } else {
        seq![s[i]] + subst_from(vars, s, i + 1, cast)
    }
}

/// `s` with every identifier that names a declared variant replaced.
pub open spec fn substitute_refs(vars: Seq<EnumVariant>, s: Seq<char>, cast: Option<(Seq<char>, Seq<char>)>) -> Seq<char> {
    subst_from(vars, s, 0, cast)
}

/// The first declared variant named `name`.
pub fn lookup_variant<'a>(vars: &'a Vec<EnumVariant>, name: &Vec<char>) -> (r: Option<&'a EnumVariant>)
    ensures
        match find_variant(vars@, name@) {
            Some(v) => r matches Some(w) && *w == v,
            None => r is None,
        },
{
    let mut i: usize = 0;
    assert(vars@.skip(0) =~= vars@);
    let name_str: String = crate::text::string_of(name);
    while i < vars.len()
        invariant
            i <= vars@.len(),
            name_str@ == name@,
            find_variant(vars@, name@) == find_variant(vars@.skip(i as int), name@),
        decreases vars@.len() - i,
    {
        assert(vars@.skip(i as int).drop_first() =~= vars@.skip(i + 1));
        assert(vars@.skip(i as int)[0] == vars@[i as int]);
        if str_eq(vars[i].name.as_str(), name_str.as_str()) {
            return Some(&vars[i]);
        }
        i = i + 1;
    }
    None
}

/// The characters of `cast`.
pub open spec fn cast_view(cast: Option<(&str, &str)>) -> Option<(Seq<char>, Seq<char>)> {
    match cast {
        None => None,
        Some((r, e)) => Some((r@, e@)),
    }
}

/// Replace every identifier in `expr` that names one of `declared_variants`:
/// with the variant's value in parentheses, or with `cast` given, with
/// `static_cast<repr>(Enum::Name)`.
pub fn substitute_refs_with(declared_variants: &Vec<EnumVariant>, expr: &str, cast: Option<(&str, &str)>) -> (r: String)
    ensures
        r@ == substitute_refs(declared_variants@, expr@, cast_view(cast)),
{
    let chars: Vec<char> = chars_of(expr);
    let len: usize = chars.len();
    let ghost vars = declared_variants@;
    let ghost cv = cast_view(cast);
    let mut result: String = String::new();
    let mut i: usize = 0;
    while i < len
        invariant
            len == chars@.len(),
            chars@ == expr@,
            vars == declared_variants@,
            cv == cast_view(cast),
            i <= len,
            result@ + subst_from(vars, chars@, i as int, cv) == subst_from(vars, chars@, 0, cv),
        decreases len - i,
    {
        let c: char = chars[i];
        let ghost before = result@;
        if is_alphabetic(c) || c == '_' {
            let start: usize = i;
            let j: usize = scan_ident(&chars, i);
            proof {
                lemma_ident_end_bounds(chars@, i as int);
            }
            let ident: Vec<char> = slice_chars(&chars, start, j);
            match lookup_variant(declared_variants, &ident) {
                Some(v) => match cast {
                    None => {
                        result.append("(");
                        result.append(v.value.as_str());
                        result.append(")");
                    },
                    Some((repr, enum_name)) => {
                        result.append("static_cast<");
                        result.append(repr);
                        result.append(">(");
                        result.append(enum_name);
                        result.append("::");
                        result.append(v.name.as_str());
                        result.append(")");
                    },
                },
                None => {
                    push_chars(&mut result, &ident);
                },
            }
            assert(result@ + subst_from(vars, chars@, j as int, cv) =~= before + subst_from(vars, chars@, i as int, cv));
            i = j;
        } else {
            push_char(&mut result, c);
            assert(result@ + subst_from(vars, chars@, i + 1, cv) =~= before + subst_from(vars, chars@, i as int, cv));
            i = i + 1;
        }
    }
    assert(subst_from(vars, chars@, len as int, cv) =~= Seq::<char>::empty());
    assert(result@ =~= result@ + subst_from(vars, chars@, len as int, cv));
    result
}

// ─── Top-level operators ────────────────────────────────────────────────────

/// Opening minus closing parentheses in `s`.
pub open spec fn paren_depth(s: Seq<char>) -> int
    decreases s.len(),
{
    if s.len() == 0 {
        0
    } else {
        paren_depth(s.drop_last()) + if s.last() == '(' {
            1int
        } else if s.last() == ')' {
            -1int
        } else {
            0int
        }
    }
}

/// Whether position `k` of `s` holds `op` outside any parentheses.
pub open spec fn top_level_at(s: Seq<char>, op: char, k: int) -> bool {
    &&& 0 <= k < s.len()
    &&& s[k] == op
    &&& op != '('
    &&& op != ')'
    &&& paren_depth(s.take(k)) == 0
}

/// Whether `op` occurs in `s` outside any parentheses.
pub open spec fn has_top(s: Seq<char>, op: char) -> bool {
    exists|k: int| #[trigger] top_level_at(s, op, k)
}

/// The pieces of `s` between top-level occurrences of `op`.
pub open spec fn split_top(s: Seq<char>, op: char) -> Seq<Seq<char>>
    decreases s.len(),
{
    if s.len() == 0 {
        seq![Seq::<char>::empty()]
    } else {
        let rest = split_top(s.drop_last(), op);
        let c = s.last();
        if c == op && op != '(' && op != ')' && paren_depth(s.drop_last()) == 0 {
            rest.push(Seq::<char>::empty())
        } else {
            rest.update(rest.len() - 1, rest.last().push(c))
        }
    }
}

/// The shape of `split_top`: at least one piece, two or more exactly when
/// `op` occurs at top level, and every piece shorter than the whole by at
/// least the number of separators.
pub proof fn lemma_split_top(s: Seq<char>, op: char)
    ensures
        split_top(s, op).len() >= 1,
        has_top(s, op) <==> split_top(s, op).len() >= 2,
        forall|k: int| 0 <= k < split_top(s, op).len() ==> (#[trigger] split_top(s, op)[k]).len() + split_top(s, op).len() - 1 <= s.len(),
    decreases s.len(),
{
    if s.len() == 0 {
        assert forall|k: int| !top_level_at(s, op, k) by {}
    } else {
        let t = s.drop_last();
        lemma_split_top(t, op);
        let rest = split_top(t, op);
        let c = s.last();
        let last = s.len() - 1;
        assert forall|k: int| 0 <= k < last implies top_level_at(s, op, k) == top_level_at(t, op, k) by {
            assert(s.take(k) =~= t.take(k));
        }
        assert(s.take(last) =~= t);
        if c == op && op != '(' && op != ')' && paren_depth(t) == 0 {
            assert(top_level_at(s, op, last));
            assert(rest[0].len() + rest.len() - 1 <= t.len());
        } else {
            assert(!top_level_at(s, op, last));
            if has_top(s, op) {
                let k = choose|k: int| top_level_at(s, op, k);
                assert(top_level_at(t, op, k));
            }
            if has_top(t, op) {
                let k = choose|k: int| top_level_at(t, op, k);
                assert(top_level_at(s, op, k));
            }
            assert(rest.last().len() + rest.len() - 1 <= t.len());
        }
    }
}

/// The pieces of `expr` between top-level occurrences of `op`, or `None`
/// when `op` does not occur outside parentheses.
pub fn split_on_top_level(expr: &Vec<char>, op: char) -> (r: Option<Vec<Vec<char>>>)
    ensures
        has_top(expr@, op) <==> r is Some,
        r matches Some(parts) ==> parts@.len() == split_top(expr@, op).len() && forall|k: int|
            0 <= k < parts@.len() ==> #[trigger] parts@[k]@ == split_top(expr@, op)[k],
{
    let n: usize = expr.len();
    let mut depth: i128 = 0;
    let mut done: Vec<Vec<char>> = Vec::new();
    let mut cur: Vec<char> = Vec::new();
    let mut i: usize = 0;
    while i < n
        invariant
            n == expr@.len(),
            i <= n,
            depth == paren_depth(expr@.take(i as int)),
            -(i as int) <= depth <= i,
            done@.len() + 1 == split_top(expr@.take(i as int), op).len(),
            forall|k: int| 0 <= k < done@.len() ==> #[trigger] done@[k]@ == split_top(expr@.take(i as int), op)[k],
            cur@ == split_top(expr@.take(i as int), op).last(),
        decreases n - i,
    {
        let c: char = expr[i];
        proof {
            lemma_split_top(expr@.take(i as int), op);
            assert(expr@.take(i + 1).drop_last() =~= expr@.take(i as int));
        }
        if c == '(' {
            depth = depth + 1;
            cur.push(c);
        } else if c == ')' {
            depth = depth - 1;
            cur.push(c);
        } else if c == op && depth == 0 {
            let finished: Vec<char> = cur;
            done.push(finished);
            cur = Vec::new();
        } else {
            cur.push(c);
        }
        i = i + 1;
    }
    assert(expr@.take(n as int) =~= expr@);
    proof {
        lemma_split_top(expr@, op);
    }
    if done.len() == 0 {
        return None;
    }
    done.push(cur);
    Some(done)
}

/// The first top-level position at or after `i` where `a` is followed by `b`,
/// scanning with parenthesis depth `depth`.
pub open spec fn first_top_pair(s: Seq<char>, a: char, b: char, i: int, depth: int) -> Option<int>
    decreases s.len() - i,
{
    if i < 0 || i >= s.len() {
        None
    } else if s[i] == '(' {
        first_top_pair(s, a, b, i + 1, depth + 1)
    } else if s[i] == ')' {
        first_top_pair(s, a, b, i + 1, depth - 1)
    } else if s[i] == a && depth == 0 && i + 1 < s.len() && s[i + 1] == b {
        Some(i)
    } else {
        first_top_pair(s, a, b, i + 1, depth)
    }
}

/// A pair position found by `first_top_pair` leaves room for both characters.
pub proof fn lemma_first_top_pair_bounds(s: Seq<char>, a: char, b: char, i: int, depth: int)
    requires
        0 <= i,
    ensures
        first_top_pair(s, a, b, i, depth) matches Some(p) ==> i <= p && p + 2 <= s.len(),
    decreases s.len() - i,
{
    if i < s.len() {
        if s[i] == '(' {
            lemma_first_top_pair_bounds(s, a, b, i + 1, depth + 1);
        } else if s[i] == ')' {
            lemma_first_top_pair_bounds(s, a, b, i + 1, depth - 1);
        } else if !(s[i] == a && depth == 0 && i + 1 < s.len() && s[i + 1] == b) {
            lemma_first_top_pair_bounds(s, a, b, i + 1, depth);
        }
    }
}

/// Split `expr` around the first top-level occurrence of the two-character
/// operator `op1 op2` (such as `<<`).
pub fn split_on_top_level_two_char(expr: &Vec<char>, op1: char, op2: char) -> (r: Option<Vec<Vec<char>>>)
    ensures
        match first_top_pair(expr@, op1, op2, 0, 0) {
            Some(p) => r matches Some(parts) && parts@.len() == 2 && parts@[0]@ == expr@.subrange(0, p)
                && parts@[1]@ == expr@.subrange(p + 2, expr@.len() as int),
            None => r is None,
        },
{
    let n: usize = expr.len();
    let mut depth: i128 = 0;
    let mut i: usize = 0;
    while i < n
        invariant
            n == expr@.len(),
            i <= n,
            -(i as int) <= depth <= i,
            first_top_pair(expr@, op1, op2, 0, 0) == first_top_pair(expr@, op1, op2, i as int, depth as int),
        decreases n - i,
    {
        let c: char = expr[i];
        if c == '(' {
            depth = depth + 1;
        } else if c == ')' {
            depth = depth - 1;
        } else if c == op1 && depth == 0 && i + 1 < n && expr[i + 1] == op2 {
            proof {
                lemma_first_top_pair_bounds(expr@, op1, op2, 0, 0);
            }
            let lhs: Vec<char> = slice_chars(expr, 0, i);
            let rhs: Vec<char> = slice_chars(expr, i + 2, n);
            let mut parts: Vec<Vec<char>> = Vec::new();
            parts.push(lhs);
            parts.push(rhs);
            return Some(parts);
        }
        i = i + 1;
    }
    None
}

// ─── LuaJIT operator rewriting ──────────────────────────────────────────────

/// The LuaJIT form of a value expression: top-level `|` chains become nested
/// `bit.bor`, a top-level `<<` becomes `bit.lshift`, a leading `~` becomes
/// `bit.bnot`, outer parentheses are dropped; anything else is kept (trimmed).
pub open spec fn lua_value_expr(e0: Seq<char>) -> Seq<char>
    decreases e0.len(), 0nat,
{
    let e = trim(e0);
    if e.len() > e0.len() {
        e
    } else if has_top(e, '|') && e0.len() > 0 {
        let parts = split_top(e, '|');
        bor_chain((e0.len() - 1) as nat, parts, parts.len())
    } else if first_top_pair(e, '<', '<', 0, 0) is Some {
        let p = first_top_pair(e, '<', '<', 0, 0)->0;
        if 0 <= p && p + 2 <= e.len() {
            let lhs = trim(e.subrange(0, p));
            let rhs = trim(e.subrange(p + 2, e.len() as int));
            if lhs.len() < e0.len() && rhs.len() < e0.len() {
                "bit.lshift("@ + lua_value_expr(lhs) + ", "@ + lua_value_expr(rhs) + ")"@
            } else {
                e
            }
        } else {
            e
        }
    } else if e.len() > 0 && e[0] == '~' {
        let inner = trim(e.drop_first());
        if inner.len() < e0.len() {
            "bit.bnot("@ + lua_value_expr(inner) + ")"@
        } else {
            e
        }
    } else if e.len() > 0 && e[0] == '(' && e.last() == ')' {
        let inner = trim(e.subrange(1, e.len() - 1));
        if inner.len() < e0.len() {
            lua_value_expr(inner)
        } else {
            e
        }
    } else {
        e
    }
}

/// The first `n` pieces, each rewritten, folded left into `bit.bor` calls.
pub open spec fn bor_chain(bound: nat, parts: Seq<Seq<char>>, n: nat) -> Seq<char>
    decreases bound, n,
{
    if n == 0 || n > parts.len() {
        Seq::<char>::empty()
    } else if trim(parts[n - 1]).len() > bound {
        Seq::<char>::empty()
    } else if n == 1 {
        lua_value_expr(trim(parts[0]))
    } else {
        "bit.bor("@ + bor_chain(bound, parts, (n - 1) as nat) + ", "@ + lua_value_expr(trim(parts[n - 1])) + ")"@
    }
}

/// Rewrite a value expression for LuaJIT (see `lua_value_expr`).
pub fn lua_transform_value_expr(expr: &Vec<char>) -> (r: String)
    ensures
        r@ == lua_value_expr(expr@),
    decreases expr@.len(),
{
    let e: Vec<char> = trim_chars(expr);
    proof {
        lemma_trim_len(expr@);
    }
    if let Some(parts) = split_on_top_level(&e, '|') {
        proof {
            lemma_split_top(e@, '|');
        }
        let ghost bound: nat = (expr@.len() - 1) as nat;
        let ghost all = split_top(e@, '|');
        let mut acc: String = String::new();
        let mut k: usize = 0;
        while k < parts.len()
            invariant
                parts@.len() == all.len(),
                all.len() >= 2,
                all == split_top(e@, '|'),
                forall|j: int| 0 <= j < parts@.len() ==> #[trigger] parts@[j]@ == all[j],
                forall|j: int| 0 <= j < all.len() ==> (#[trigger] all[j]).len() + all.len() - 1 <= e@.len(),
                e@.len() <= expr@.len(),
                bound == expr@.len() - 1,
                k <= parts@.len(),
                acc@ == bor_chain(bound, all, k as nat),
            decreases parts@.len() - k,
        {
            let piece: Vec<char> = trim_chars(&parts[k]);
            proof {
                lemma_trim_len(parts@[k as int]@);
            }
            let t: String = lua_transform_value_expr(&piece);
            if k == 0 {
                acc = t;
            } else {
                let mut next: String = String::new();
                next.append("bit.bor(");
                next.append(acc.as_str());
                next.append(", ");
                next.append(t.as_str());
                next.append(")");
                acc = next;
            }
            k = k + 1;
        }
        return acc;
    }
    if let Some(parts) = split_on_top_level_two_char(&e, '<', '<') {
        proof {
            lemma_first_top_pair_bounds(e@, '<', '<', 0, 0);
        }
        if parts.len() == 2 {
            let lhs: Vec<char> = trim_chars(&parts[0]);
            let rhs: Vec<char> = trim_chars(&parts[1]);
            proof {
                lemma_trim_len(parts@[0]@);
                lemma_trim_len(parts@[1]@);
            }
            let l: String = lua_transform_value_expr(&lhs);
            let r: String = lua_transform_value_expr(&rhs);
            let mut out: String = String::new();
            out.append("bit.lshift(");
            out.append(l.as_str());
            out.append(", ");
            out.append(r.as_str());
            out.append(")");
            return out;
        }
    }
    let n: usize = e.len();
    if n > 0 && e[0] == '~' {
        let rest: Vec<char> = slice_chars(&e, 1, n);
        assert(rest@ =~= e@.drop_first());
        let inner: Vec<char> = trim_chars(&rest);
        proof {
            lemma_trim_len(rest@);
        }
        let t: String = lua_transform_value_expr(&inner);
        let mut out: String = String::new();
        out.append("bit.bnot(");
        out.append(t.as_str());
        out.append(")");
        return out;
    }
    if n > 0 && e[0] == '(' && e[n - 1] == ')' {
        let mid: Vec<char> = slice_chars(&e, 1, n - 1);
        let inner: Vec<char> = trim_chars(&mid);
        proof {
            lemma_trim_len(mid@);
        }
        return lua_transform_value_expr(&inner);
    }
    crate::text::string_of(&e)
}

} // verus!
