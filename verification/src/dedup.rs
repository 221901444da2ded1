//! Scope-local name deduplication: under the sanitize configuration a name
//! already used in the enclosing scope has underscores appended until it is
//! unique there.
use vstd::prelude::*;
use vstd::string::*;
use vstd::set_lib::lemma_len_subset;
use crate::diag::{Diag, DiagV, push_diag};

verus! {

/// `name` with `k` underscores appended.
pub open spec fn with_underscores(name: Seq<char>, k: nat) -> Seq<char>
    decreases k,
{
    if k == 0 {
        name
    } else {
        with_underscores(name, (k - 1) as nat).push('_')
    }
}

proof fn lemma_with_underscores_len(name: Seq<char>, k: nat)
    ensures
        with_underscores(name, k).len() == name.len() + k,
    decreases k,
{
    if k > 0 {
        lemma_with_underscores_len(name, (k - 1) as nat);
    }
}

/// `k` leaves the dedup loop: `name` with `k` underscores is free, and every
/// smaller number of underscores is taken.
pub open spec fn dedup_ok(used: Seq<Seq<char>>, name: Seq<char>, k: nat) -> bool {
    !used.contains(with_underscores(name, k)) && (forall|j: nat|
        j < k ==> used.contains(with_underscores(name, j)))
}

/// The number of underscores the dedup loop appends: the least `k` whose
/// candidate is not yet used.
pub open spec fn dedup_k(used: Seq<Seq<char>>, name: Seq<char>) -> nat {
    choose|k: nat| dedup_ok(used, name, k)
}

/// The deduplicated name.
pub open spec fn dedup_name(used: Seq<Seq<char>>, name: Seq<char>) -> Seq<char> {
    with_underscores(name, dedup_k(used, name))
}

/// The diagnostics the dedup loop reports: one per taken candidate.
pub open spec fn dedup_diags(used: Seq<Seq<char>>, name: Seq<char>) -> Seq<DiagV> {
    Seq::new(
        dedup_k(used, name),
        |j: int| DiagV::NonUniqueRegisterName { name: with_underscores(name, j as nat) },
    )
}

/// Some number of underscores up to the number of used names is always free:
/// the candidates are pairwise distinct (their lengths differ), so they
/// cannot all lie in the used set.
proof fn lemma_dedup_exists(used: Seq<Seq<char>>, name: Seq<char>)
    ensures
        exists|k: nat| k <= used.len() && !used.contains(with_underscores(name, k)),
{
    broadcast use vstd::set::group_set_axioms;

    let n = used.len();
    if forall|k: nat| k <= n ==> used.contains(#[trigger] with_underscores(name, k)) {
        let cands = Seq::new(n + 1, |k: int| with_underscores(name, k as nat));
        assert forall|i: int, j: int| 0 <= i < cands.len() && 0 <= j < cands.len() && i != j
            implies cands[i] != cands[j] by {
            lemma_with_underscores_len(name, i as nat);
            lemma_with_underscores_len(name, j as nat);
        }
        assert(cands.no_duplicates());
        cands.unique_seq_to_set();
        assert forall|x: Seq<char>| cands.to_set().contains(x) implies used.to_set().contains(
            x,
        ) by {
            let i = choose|i: int| 0 <= i < cands.len() && cands[i] == x;
            assert(used.contains(with_underscores(name, i as nat)));
        }
        vstd::seq_lib::seq_to_set_is_finite(used);
        lemma_len_subset(cands.to_set(), used.to_set());
        used.lemma_cardinality_of_set();
        assert(false);
    }
}

proof fn lemma_dedup_k_is(used: Seq<Seq<char>>, name: Seq<char>, k: nat)
    requires
        dedup_ok(used, name, k),
    ensures
        dedup_k(used, name) == k,
{
    let k2 = dedup_k(used, name);
    assert(dedup_ok(used, name, k2)) by {
        assert(exists|k3: nat| dedup_ok(used, name, k3));
    }
    if k2 < k {
        assert(used.contains(with_underscores(name, k2)));
    }
    if k < k2 {
        assert(used.contains(with_underscores(name, k)));
    }
}

proof fn lemma_least_free(used: Seq<Seq<char>>, name: Seq<char>, k: nat)
    requires
        !used.contains(with_underscores(name, k)),
    ensures
        exists|k2: nat| dedup_ok(used, name, k2),
    decreases k,
{
    if forall|j: nat| j < k ==> used.contains(#[trigger] with_underscores(name, j)) {
        assert(dedup_ok(used, name, k));
    } else {
        let j = choose|j: nat| j < k && !used.contains(with_underscores(name, j));
        lemma_least_free(used, name, j);
    }
}

/// Register-name deduplication is exact: the chosen name is the given one
/// with the least number of trailing underscores appended that is not yet
/// used in the scope, so the first use keeps the name, a repeat gains one
/// underscore, a second repeat two, and so on.
pub proof fn lemma_dedup_minimal(used: Seq<Seq<char>>, name: Seq<char>)
    ensures
        dedup_name(used, name) == with_underscores(name, dedup_k(used, name)),
        !used.contains(dedup_name(used, name)),
        forall|j: nat|
            j < dedup_k(used, name) ==> used.contains(#[trigger] with_underscores(name, j)),
{
    lemma_dedup_exists(used, name);
    let kf = choose|k: nat| k <= used.len() && !used.contains(with_underscores(name, k));
    lemma_least_free(used, name, kf);
    let k2 = dedup_k(used, name);
    assert(dedup_ok(used, name, k2)) by {
        assert(exists|k3: nat| dedup_ok(used, name, k3));
    }
}

/// Whether the scope already holds this name.
pub fn contains_name(used: &Vec<String>, n: &String) -> (r: bool)
    ensures
        r == used.deep_view().contains(n@),
{
    let m = used.len();
    let mut i: usize = 0;
    while i < m
        invariant
            0 <= i <= m,
            m == used.len(),
            used.deep_view().len() == m,
            forall|j: int| 0 <= j < m ==> used.deep_view()[j] == used[j]@,
            forall|j: int| 0 <= j < i ==> used.deep_view()[j] != n@,
        decreases m - i,
    {
        if used[i] == *n {
            proof {
                assert(used.deep_view()[i as int] == n@);
            }
            return true;
        }
        i = i + 1;
    }
    false
}

/// Make `name` unique within the scope: append underscores until the name is
/// not in `used`, reporting each collision, then record and return the
/// chosen name.
pub fn unique_name(used: &mut Vec<String>, name: String, diags: &mut Vec<Diag>) -> (r: String)
    ensures
        r@ == dedup_name(old(used).deep_view(), name@),
        final(used).deep_view() == old(used).deep_view().push(r@),
        final(diags).deep_view() == old(diags).deep_view() + dedup_diags(
            old(used).deep_view(),
            name@,
        ),
{
    let ghost used0 = used.deep_view();
    let ghost name0 = name@;
    let ghost diags0 = diags.deep_view();
    let n = used.len();
    proof {
        lemma_dedup_exists(used0, name0);
    }
    let mut current = name;
    let ghost mut gk: nat = 0;
    proof {
        assert(diags.deep_view() =~= diags0 + Seq::new(
            0,
            |j: int| DiagV::NonUniqueRegisterName { name: with_underscores(name0, j as nat) },
        ));
    }
    while contains_name(used, &current)
        invariant
            used.deep_view() == used0,
            used0.len() == n,
            gk <= n,
            current@ == with_underscores(name0, gk),
            forall|j: nat| j < gk ==> used0.contains(#[trigger] with_underscores(name0, j)),
            exists|k: nat| k <= n && !used0.contains(with_underscores(name0, k)),
            diags.deep_view() == diags0 + Seq::new(
                gk,
                |j: int| DiagV::NonUniqueRegisterName { name: with_underscores(name0, j as nat) },
            ),
        decreases n - gk,
    {
        proof {
            // gk is taken, so the free candidate lies strictly above gk
            let kf = choose|k: nat| k <= n && !used0.contains(with_underscores(name0, k));
            assert(kf != gk);
            if kf < gk {
                assert(used0.contains(with_underscores(name0, kf)));
            }
            assert(gk < kf <= n);
        }
        push_diag(diags, Diag::NonUniqueRegisterName { name: current.clone() });
        current.append("_");
        proof {
            reveal_strlit("_");
            assert(current@ =~= with_underscores(name0, gk).push('_'));
            gk = gk + 1;
            assert(diags.deep_view() =~= diags0 + Seq::new(
                gk,
                |j: int| DiagV::NonUniqueRegisterName { name: with_underscores(name0, j as nat) },
            ));
        }
    }
    proof {
        assert(dedup_ok(used0, name0, gk));
        lemma_dedup_k_is(used0, name0, gk);
        assert(diags.deep_view() =~= diags0 + dedup_diags(used0, name0));
    }
    let r = current.clone();
    let ghost pre = used.deep_view();
    used.push(current);
    proof {
        assert(used.deep_view() =~= pre.push(r@));
    }
    r
}

} // verus!
