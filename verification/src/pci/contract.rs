//! What an endpoint and its resolved function agree on before a binding is published.

use crate::access::ConfigFault;
use crate::pci::capability::{PciCapabilityLayout, PciConfigEffectId};
use vstd::prelude::*;

verus! {

/// Whether one of the capabilities declares the effect.
pub open spec fn declares_effect(
    capabilities: Seq<PciCapabilityLayout>,
    effect: PciConfigEffectId,
) -> bool {
    exists|c: int, e: int|
        #![trigger capabilities[c].spec.effects@[e]]
        0 <= c < capabilities.len() && 0 <= e < capabilities[c].spec.effects@.len()
            && capabilities[c].spec.effects@[e].effect == effect
}

/// What is wrong with advertised effect `i`: an earlier one is the same, or no
/// capability declares it.
pub open spec fn advertised_fault(
    supported: Seq<PciConfigEffectId>,
    capabilities: Seq<PciCapabilityLayout>,
    i: int,
) -> Option<ConfigFault> {
    if supported.take(i).contains(supported[i]) {
        Some(ConfigFault::DuplicateEffect(supported[i].0))
    } else if !declares_effect(capabilities, supported[i]) {
        Some(ConfigFault::UndeclaredEffect(supported[i].0))
    } else {
        None
    }
}

/// Whether an endpoint that advertises `supported` fits the capabilities: each
/// effect is advertised once and declared, and each declared one is advertised.
pub open spec fn effects_match(
    supported: Seq<PciConfigEffectId>,
    capabilities: Seq<PciCapabilityLayout>,
) -> bool {
    &&& forall|i: int|
        #![trigger supported[i]]
        0 <= i < supported.len() ==> advertised_fault(supported, capabilities, i) is None
    &&& forall|c: int, e: int|
        #![trigger capabilities[c].spec.effects@[e]]
        0 <= c < capabilities.len() && 0 <= e < capabilities[c].spec.effects@.len()
            ==> supported.contains(capabilities[c].spec.effects@[e].effect)
}

/// Whether `fault` is the first thing wrong: with an advertised effect, or else
/// with a declared one that is not advertised.
pub open spec fn is_effect_fault(
    supported: Seq<PciConfigEffectId>,
    capabilities: Seq<PciCapabilityLayout>,
    fault: ConfigFault,
) -> bool {
    ||| exists|i: int|
        #![trigger supported[i]]
        0 <= i < supported.len() && advertised_fault(supported, capabilities, i) == Some(fault)
            && forall|j: int|
            #![trigger supported[j]]
            0 <= j < i ==> advertised_fault(supported, capabilities, j) is None
    ||| {
        &&& forall|i: int|
            #![trigger supported[i]]
            0 <= i < supported.len() ==> advertised_fault(supported, capabilities, i) is None
        &&& exists|c: int, e: int|
            #[trigger] is_first_unsupported(supported, capabilities, c, e)
                && fault == ConfigFault::UnsupportedEffect(
                capabilities[c].spec.effects@[e].effect.0,
            )
    }
}

/// Whether effect `e` of capability `c` is the first declared one that is not
/// advertised.
pub open spec fn is_first_unsupported(
    supported: Seq<PciConfigEffectId>,
    capabilities: Seq<PciCapabilityLayout>,
    c: int,
    e: int,
) -> bool {
    &&& 0 <= c < capabilities.len()
    &&& 0 <= e < capabilities[c].spec.effects@.len()
    &&& !supported.contains(capabilities[c].spec.effects@[e].effect)
    &&& forall|d: int, f: int|
        #![trigger capabilities[d].spec.effects@[f]]
        0 <= d < capabilities.len() && 0 <= f < capabilities[d].spec.effects@.len() && (d < c || (d
            == c && f < e)) ==> supported.contains(capabilities[d].spec.effects@[f].effect)
}

/// Returns whether one of the first `count` effects of a list is the given one.
pub fn list_has_effect(list: &Vec<PciConfigEffectId>, count: usize, effect: PciConfigEffectId) -> (found:
    bool)
    requires
        count <= list@.len(),
    ensures
        found == list@.take(count as int).contains(effect),
{
    let mut i: usize = 0;
    while i < count
        invariant
            i <= count <= list@.len(),
            forall|j: int| #![trigger list@[j]] 0 <= j < i ==> list@[j] != effect,
        decreases count - i,
    {
        if list[i] == effect {
            assert(list@.take(count as int)[i as int] == effect);
            return true;
        }
        i = i + 1;
    }
    false
}

/// Returns whether a capability declares the effect.
pub fn capabilities_declare(capabilities: &Vec<PciCapabilityLayout>, effect: PciConfigEffectId) -> (found:
    bool)
    ensures
        found == declares_effect(capabilities@, effect),
{
    let mut c: usize = 0;
    while c < capabilities.len()
        invariant
            c <= capabilities@.len(),
            forall|d: int, e: int|
                #![trigger capabilities@[d].spec.effects@[e]]
                0 <= d < c && 0 <= e < capabilities@[d].spec.effects@.len()
                    ==> capabilities@[d].spec.effects@[e].effect != effect,
        decreases capabilities@.len() - c,
    {
        let effects = capabilities[c].effects();
        let mut e: usize = 0;
        while e < effects.len()
            invariant
                e <= effects@.len(),
                c < capabilities@.len(),
                *effects == capabilities@[c as int].spec.effects,
                forall|f: int|
                    #![trigger capabilities@[c as int].spec.effects@[f]]
                    0 <= f < e ==> capabilities@[c as int].spec.effects@[f].effect != effect,
            decreases effects@.len() - e,
        {
            if effects[e].effect == effect {
                assert(capabilities@[c as int].spec.effects@[e as int].effect == effect);
                return true;
            }
            e = e + 1;
        }
        c = c + 1;
    }
    false
}

/// Returns what is wrong with an endpoint that advertises `supported` for these
/// capabilities.
pub fn config_effect_fault(
    supported: &Vec<PciConfigEffectId>,
    capabilities: &Vec<PciCapabilityLayout>,
) -> (fault: Option<ConfigFault>)
    ensures
        fault is None <==> effects_match(supported@, capabilities@),
        fault matches Some(fault) ==> is_effect_fault(supported@, capabilities@, fault),
{
    let mut i: usize = 0;
    while i < supported.len()
        invariant
            i <= supported@.len(),
            forall|j: int|
                #![trigger supported@[j]]
                0 <= j < i ==> advertised_fault(supported@, capabilities@, j) is None,
        decreases supported@.len() - i,
    {
        let effect = supported[i];
        if list_has_effect(supported, i, effect) {
            assert(advertised_fault(supported@, capabilities@, i as int) is Some);
            return Some(ConfigFault::DuplicateEffect(effect.0));
        }
        if !capabilities_declare(capabilities, effect) {
            assert(advertised_fault(supported@, capabilities@, i as int) is Some);
            return Some(ConfigFault::UndeclaredEffect(effect.0));
        }
        i = i + 1;
    }
    assert(supported@.take(supported@.len() as int) =~= supported@);
    let mut c: usize = 0;
    while c < capabilities.len()
        invariant
            c <= capabilities@.len(),
            supported@.take(supported@.len() as int) == supported@,
            forall|j: int|
                #![trigger supported@[j]]
                0 <= j < supported@.len() ==> advertised_fault(supported@, capabilities@, j)
                    is None,
            forall|d: int, f: int|
                #![trigger capabilities@[d].spec.effects@[f]]
                0 <= d < c && 0 <= f < capabilities@[d].spec.effects@.len() ==> supported@.contains(
                    capabilities@[d].spec.effects@[f].effect,
                ),
        decreases capabilities@.len() - c,
    {
        let effects = capabilities[c].effects();
        let mut e: usize = 0;
        while e < effects.len()
            invariant
                e <= effects@.len(),
                c < capabilities@.len(),
                *effects == capabilities@[c as int].spec.effects,
                supported@.take(supported@.len() as int) == supported@,
                forall|j: int|
                    #![trigger supported@[j]]
                    0 <= j < supported@.len() ==> advertised_fault(supported@, capabilities@, j)
                        is None,
                forall|d: int, f: int|
                    #![trigger capabilities@[d].spec.effects@[f]]
                    0 <= d < capabilities@.len() && 0 <= f < capabilities@[d].spec.effects@.len()
                        && (d < c || (d == c && f < e)) ==> supported@.contains(
                        capabilities@[d].spec.effects@[f].effect,
                    ),
            decreases effects@.len() - e,
        {
            let declared = effects[e].effect;
            if !list_has_effect(supported, supported.len(), declared) {
                assert(is_first_unsupported(supported@, capabilities@, c as int, e as int));
                return Some(ConfigFault::UnsupportedEffect(declared.0));
            }
            e = e + 1;
        }
        c = c + 1;
    }
    None
}

} // verus!
