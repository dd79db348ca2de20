use vstd::prelude::*;

verus! {

use core::any::TypeId;
use crate::definition::ScopeDefinition;
use crate::priority::GLOBAL_RANK;
use crate::scoped::ScopeEntry;
use crate::scoped::hit;
use crate::scoped::is_resolve_choice;
use crate::scoped::is_write_target;
use crate::store::ErasedValue;

/// Type isolation: registering a value under one type identity never affects
/// what any other type identity resolves to.
///
/// `register_key` turns a store's entries `m` into `m.insert(t, v)`, and
/// `resolve_key` reads the entries at the requested identity; for any other
/// identity `u` both presence and value are untouched.
pub proof fn lemma_type_isolation(m: Map<TypeId, ErasedValue>, t: TypeId, u: TypeId, v: ErasedValue)
    requires
        t != u,
    ensures
        m.insert(t, v).contains_key(u) == m.contains_key(u),
        m.contains_key(u) ==> m.insert(t, v)[u] == m[u],
{
}

/// Override idempotence: after registering under the same type identity
/// twice, exactly the second value is resolvable; the first value is what
/// the second registration hands back, and it is not resolvable afterward.
pub proof fn lemma_override_idempotence(
    m: Map<TypeId, ErasedValue>,
    t: TypeId,
    v1: ErasedValue,
    v2: ErasedValue,
)
    ensures
        m.insert(t, v1).contains_key(t) && m.insert(t, v1)[t] == v1,
        m.insert(t, v1).insert(t, v2)[t] == v2,
        m.insert(t, v1).insert(t, v2) =~= m.insert(t, v2),
{
}

/// Deregister round-trip: registering a value and then deregistering its
/// type hands the value back, and a subsequent resolution of that type finds
/// nothing.
pub proof fn lemma_deregister_round_trip(m: Map<TypeId, ErasedValue>, t: TypeId, v: ErasedValue)
    ensures
        m.insert(t, v).contains_key(t),
        m.insert(t, v)[t] == v,
        !m.insert(t, v).remove(t).contains_key(t),
{
}

/// Shadowing: when a lower-ranked and a higher-ranked scope both hold the
/// requested type, scope-agnostic resolution never reads the higher-ranked
/// one, and the scope it does read ranks no higher than the lower holder.
pub proof fn lemma_shadowing<U: ScopeDefinition>(
    s: Seq<ScopeEntry<U>>,
    k: TypeId,
    lo: int,
    hi: int,
    pick: int,
)
    requires
        hit(s, lo, k),
        hit(s, hi, k),
        s[lo].0.srank() < s[hi].0.srank(),
        is_resolve_choice(s, k, pick),
    ensures
        pick != hi,
        s[pick].0.srank() <= s[lo].0.srank(),
{
    if pick != lo {
        assert(s[pick].0.srank() < s[lo].0.srank() || (s[pick].0.srank() == s[lo].0.srank()
            && pick < lo));
    }
}

/// Default placement: when the `Global` scope is present and every other
/// scope ranks below it, a scope-agnostic registration targets exactly the
/// `Global` scope.
pub proof fn lemma_default_placement<U: ScopeDefinition>(s: Seq<ScopeEntry<U>>, g: int, t: int)
    requires
        0 <= g < s.len(),
        s[g].0 is Global,
        forall|j: int| 0 <= j < s.len() && j != g ==> s[j].0.srank() < GLOBAL_RANK as int,
        is_write_target(s, t),
    ensures
        t == g,
{
    if t != g {
        assert(s[g].0.srank() < s[t].0.srank() || (s[g].0.srank() == s[t].0.srank() && g < t));
        assert(s[t].0.srank() < GLOBAL_RANK as int);
    }
}

} // verus!
