use crate::models::{method_views, Method, MethodView};
use crate::text::{
    decimal, lemma_decimal_digits_only, lemma_decimal_injective, push_decimal, same,
};
use vstd::prelude::*;
use vstd::string::*;

verus! {

/// `name` with an underscore and the decimal numeral of `n` behind it.
pub open spec fn suffixed(name: Seq<char>, n: nat) -> Seq<char> {
    name.push('_') + decimal(n)
}

/// Whether `n` is the least number whose suffix makes of `name` a name that is not taken.
pub open spec fn is_first_free(taken: Seq<Seq<char>>, name: Seq<char>, n: nat) -> bool {
    &&& !taken.contains(suffixed(name, n))
    &&& forall|k: nat| k < n ==> taken.contains(#[trigger] suffixed(name, k))
}

/// The name under which a method called `name` is generated when the names in `taken` are
/// in use: its own name where that is free, and else the name with the least suffix that
/// makes it free.
pub open spec fn host_name(taken: Seq<Seq<char>>, name: Seq<char>) -> Seq<char> {
    if !taken.contains(name) {
        name
    } else {
        suffixed(name, choose|n: nat| is_first_free(taken, name, n))
    }
}

/// The names under which methods called `names` are generated, each resolved against the
/// names given to the methods declared before it.
pub open spec fn resolved_names(names: Seq<Seq<char>>) -> Seq<Seq<char>>
    decreases names.len(),
{
    if names.len() == 0 {
        Seq::empty()
    } else {
        let init = resolved_names(names.drop_last());
        init.push(host_name(init, names.last()))
    }
}

/// The names of the methods, in the order of declaration.
pub open spec fn method_names(methods: Seq<MethodView>) -> Seq<Seq<char>> {
    methods.map_values(|m: MethodView| m.name)
}

/// Different suffixes make different names.
pub proof fn lemma_suffixed_injective(name: Seq<char>, a: nat, b: nat)
    requires
        suffixed(name, a) == suffixed(name, b),
    ensures
        a == b,
{
    let prefix = name.push('_');
    assert((prefix + decimal(a)).skip(prefix.len() as int) =~= decimal(a));
    assert((prefix + decimal(b)).skip(prefix.len() as int) =~= decimal(b));
    lemma_decimal_injective(a, b);
}

/// There is only one least free suffix.
pub proof fn lemma_first_free_unique(taken: Seq<Seq<char>>, name: Seq<char>, a: nat, b: nat)
    requires
        is_first_free(taken, name, a),
        is_first_free(taken, name, b),
    ensures
        a == b,
{
    if a < b {
        assert(taken.contains(suffixed(name, a)));
    } else if b < a {
        assert(taken.contains(suffixed(name, b)));
    }
}

/// Where the first `k` suffixes are all taken, at least `k` names are taken.
pub proof fn lemma_taken_suffixes_bound(taken: Seq<Seq<char>>, name: Seq<char>, k: nat)
    requires
        forall|j: nat| j < k ==> taken.contains(#[trigger] suffixed(name, j)),
    ensures
        k <= taken.len(),
    decreases k,
{
    if k > 0 {
        let top = suffixed(name, (k - 1) as nat);
        assert(taken.contains(top));
        let at = choose|i: int| 0 <= i < taken.len() && taken[i] == top;
        let rest = taken.remove(at);
        assert forall|j: nat| j < k - 1 implies rest.contains(#[trigger] suffixed(name, j)) by {
            let other = suffixed(name, j);
            assert(taken.contains(other));
            let i = choose|i: int| 0 <= i < taken.len() && taken[i] == other;
            if i == at {
                lemma_suffixed_injective(name, j, (k - 1) as nat);
            } else if i < at {
                assert(rest[i] == other);
            } else {
                assert(rest[i - 1] == other);
            }
        }
        lemma_taken_suffixes_bound(rest, name, (k - 1) as nat);
    }
}

/// Whether `name` is among `taken`.
pub fn is_taken(taken: &Vec<String>, name: &str) -> (r: bool)
    ensures
        r == taken.deep_view().contains(name@),
{
    let mut i: usize = 0;
    while i < taken.len()
        invariant
            i <= taken.len(),
            forall|k: int| 0 <= k < i ==> taken.deep_view()[k] != name@,
        decreases taken.len() - i,
    {
        if same(taken[i].as_str(), name) {
            assert(taken.deep_view()[i as int] == name@);
            return true;
        }
        i += 1;
    }
    false
}

/// Writes `name` with an underscore and the numeral of `n` behind it.
pub fn suffix(name: &str, n: usize) -> (r: String)
    ensures
        r@ == suffixed(name@, n as nat),
{
    let mut out = name.to_owned();
    out.push('_');
    push_decimal(&mut out, n);
    out
}

/// Gives the name under which a method called `name` is generated when the names in
/// `taken` are in use.
pub fn resolve_name(taken: &Vec<String>, name: &str) -> (r: String)
    ensures
        r@ == host_name(taken.deep_view(), name@),
        !taken.deep_view().contains(r@),
{
    if !is_taken(taken, name) {
        return name.to_owned();
    }
    let ghost used = taken.deep_view();
    let mut index: usize = 0;
    let mut candidate = suffix(name, 0);
    while is_taken(taken, candidate.as_str())
        invariant
            used == taken.deep_view(),
            candidate@ == suffixed(name@, index as nat),
            index <= taken.len(),
            forall|k: nat| k < index ==> used.contains(#[trigger] suffixed(name@, k)),
        decreases taken.len() - index,
    {
        proof {
            lemma_taken_suffixes_bound(used, name@, (index + 1) as nat);
        }
        index += 1;
        candidate = suffix(name, index);
    }
    proof {
        assert(is_first_free(used, name@, index as nat));
        let chosen = choose|n: nat| is_first_free(used, name@, n);
        lemma_first_free_unique(used, name@, index as nat, chosen);
    }
    candidate
}

/// Gives each method the name under which it is generated: declared twice, a name gets a
/// suffix from its second occurrence on.
pub fn resolve_names(methods: &Vec<Method>) -> (r: Vec<String>)
    ensures
        r.deep_view() == resolved_names(method_names(method_views(methods@))),
        r.len() == methods.len(),
{
    let ghost names = method_names(method_views(methods@));
    let mut out: Vec<String> = Vec::new();
    let mut i: usize = 0;
    assert(names.take(0) =~= Seq::<Seq<char>>::empty());
    assert(out.deep_view() =~= Seq::<Seq<char>>::empty());
    while i < methods.len()
        invariant
            i <= methods.len(),
            names == method_names(method_views(methods@)),
            out.len() == i,
            out.deep_view() == resolved_names(names.take(i as int)),
        decreases methods.len() - i,
    {
        let ghost before = out.deep_view();
        let name = resolve_name(&out, methods[i].name.as_str());
        let ghost chosen = name@;
        out.push(name);
        proof {
            assert(names.take(i + 1).drop_last() =~= names.take(i as int));
            assert(names.take(i + 1).last() == methods@[i as int]@.name);
            assert(out.deep_view() =~= before.push(chosen));
        }
        i += 1;
    }
    assert(names.take(names.len() as int) =~= names);
    out
}

/// Where the first `k` suffixes are taken, some suffix is the least free one.
pub proof fn lemma_first_free_exists(taken: Seq<Seq<char>>, name: Seq<char>, k: nat)
    requires
        forall|j: nat| j < k ==> taken.contains(#[trigger] suffixed(name, j)),
    ensures
        exists|n: nat| is_first_free(taken, name, n),
    decreases taken.len() - k,
{
    if !taken.contains(suffixed(name, k)) {
        assert(is_first_free(taken, name, k));
    } else {
        lemma_taken_suffixes_bound(taken, name, k + 1);
        lemma_first_free_exists(taken, name, k + 1);
    }
}

/// The name given to a method is none of the names in use.
pub proof fn lemma_host_name_free(taken: Seq<Seq<char>>, name: Seq<char>)
    ensures
        !taken.contains(host_name(taken, name)),
{
    if taken.contains(name) {
        lemma_first_free_exists(taken, name, 0);
    }
}

/// The name given to a method holds a dollar sign only where the declared name holds one.
pub proof fn lemma_host_name_marker(taken: Seq<Seq<char>>, name: Seq<char>)
    ensures
        host_name(taken, name).contains('$') == name.contains('$'),
{
    let host = host_name(taken, name);
    if host != name {
        let n = choose|n: nat| is_first_free(taken, name, n);
        let head = name.push('_');
        if host.contains('$') {
            let i = choose|i: int| 0 <= i < host.len() && host[i] == '$';
            if i >= head.len() {
                assert(decimal(n)[i - head.len()] == '$');
                lemma_decimal_digits_only(n, '$');
            } else {
                assert(name[i] == '$');
            }
        }
        if name.contains('$') {
            let i = choose|i: int| 0 <= i < name.len() && name[i] == '$';
            assert(host[i] == '$');
        }
    }
}

/// Every method of a class is given a name, and no two of them the same one.
pub proof fn lemma_resolved_names_distinct(names: Seq<Seq<char>>)
    ensures
        resolved_names(names).len() == names.len(),
        resolved_names(names).no_duplicates(),
    decreases names.len(),
{
    if names.len() > 0 {
        let init = resolved_names(names.drop_last());
        lemma_resolved_names_distinct(names.drop_last());
        lemma_host_name_free(init, names.last());
        let all = resolved_names(names);
        assert forall|i: int, j: int| 0 <= i < all.len() && 0 <= j < all.len() && i != j implies all[i]
            != all[j] by {
            if i < init.len() && j < init.len() {
                assert(init[i] != init[j]);
            } else if i < init.len() {
                assert(init.contains(init[i]));
            } else {
                assert(init.contains(init[j]));
            }
        }
    }
}

/// The name given to a method does not depend on the methods declared behind it, and a
/// method whose name none before it was given keeps its name.
pub proof fn lemma_resolved_name_at(names: Seq<Seq<char>>, i: int)
    requires
        0 <= i < names.len(),
    ensures
        resolved_names(names).len() == names.len(),
        resolved_names(names)[i] == host_name(resolved_names(names.take(i)), names[i]),
        resolved_names(names).take(i) == resolved_names(names.take(i)),
    decreases names.len(),
{
    lemma_resolved_names_distinct(names);
    lemma_resolved_names_distinct(names.drop_last());
    let init = resolved_names(names.drop_last());
    if i == names.len() - 1 {
        assert(names.take(i) =~= names.drop_last());
        assert(resolved_names(names).take(i) =~= init);
    } else {
        lemma_resolved_name_at(names.drop_last(), i);
        assert(names.drop_last().take(i) =~= names.take(i));
        assert(resolved_names(names).take(i) =~= init.take(i));
    }
}

} // verus!
