//! Names under which cones and solver settings are passed in by the Python
//! layer.
//!
//! Cone kinds are matched without regard to ASCII case, settings keys
//! exactly. Names are compared as UTF-8 bytes: every accepted name is ASCII,
//! and no non-ASCII character lowercases to one of them.

use vstd::prelude::*;
use vstd::string::StringSliceAdditionalSpecFns;
use vstd::utf8::*;

verus! {

/// ASCII lowercase of one byte; other bytes are unchanged.
pub open spec fn ascii_lower(b: u8) -> u8 {
    if 65 <= b <= 90 { (b + 32) as u8 } else { b }
}

/// A byte string with every ASCII letter lowercased.
pub open spec fn lowered(s: Seq<u8>) -> Seq<u8> {
    s.map_values(|b: u8| ascii_lower(b))
}

/// The kind of a cone named in a cone list.
#[derive(Clone, Copy, Debug, PartialEq, Eq, Structural)]
pub enum ConeKind {
    Zero,
    Nonnegative,
    SecondOrder,
    Exponential,
    DualExponential,
    Power,
    DualPower,
}

/// Why a cone name was refused.
#[derive(Clone, Copy, Debug, PartialEq, Eq, Structural)]
pub enum ConeNameError {
    /// Semidefinite cones (`psd`, `sdp`) are not implemented.
    Psd,
    /// Any other unknown name.
    Unknown,
}

/// The cone kind named by an already lowercased name.
pub open spec fn cone_kind_of(l: Seq<u8>) -> Result<ConeKind, ConeNameError> {
    if l == seq!['z' as u8, 'e' as u8, 'r' as u8, 'o' as u8] || l == seq!['z' as u8] || l == seq!['e' as u8, 'q' as u8] {
        Ok(ConeKind::Zero)
    } else if l == seq!['n' as u8, 'o' as u8, 'n' as u8, 'n' as u8, 'e' as u8, 'g' as u8, 'a' as u8, 't' as u8, 'i' as u8, 'v' as u8, 'e' as u8] || l == seq!['n' as u8, 'o' as u8, 'n' as u8, 'n' as u8, 'e' as u8, 'g' as u8] || l == seq!['l' as u8] || l == seq!['n' as u8, 'n' as u8] {
        Ok(ConeKind::Nonnegative)
    } else if l == seq!['s' as u8, 'o' as u8, 'c' as u8] || l == seq!['q' as u8] || l == seq!['s' as u8, 'e' as u8, 'c' as u8, 'o' as u8, 'n' as u8, 'd' as u8, 'o' as u8, 'r' as u8, 'd' as u8, 'e' as u8, 'r' as u8] {
        Ok(ConeKind::SecondOrder)
    } else if l == seq!['e' as u8, 'x' as u8, 'p' as u8] || l == seq!['e' as u8, 'x' as u8, 'p' as u8, 'o' as u8, 'n' as u8, 'e' as u8, 'n' as u8, 't' as u8, 'i' as u8, 'a' as u8, 'l' as u8] || l == seq!['e' as u8, 'p' as u8] {
        Ok(ConeKind::Exponential)
    } else if l == seq!['d' as u8, 'u' as u8, 'a' as u8, 'l' as u8, 'e' as u8, 'x' as u8, 'p' as u8] || l == seq!['e' as u8, 'd' as u8] {
        Ok(ConeKind::DualExponential)
    } else if l == seq!['p' as u8, 'o' as u8, 'w' as u8, 'e' as u8, 'r' as u8] || l == seq!['p' as u8, 'o' as u8, 'w' as u8] || l == seq!['p' as u8] {
        Ok(ConeKind::Power)
    } else if l == seq!['d' as u8, 'u' as u8, 'a' as u8, 'l' as u8, 'p' as u8, 'o' as u8, 'w' as u8, 'e' as u8, 'r' as u8] {
        Ok(ConeKind::DualPower)
    } else if l == seq!['p' as u8, 's' as u8, 'd' as u8] || l == seq!['s' as u8, 'd' as u8, 'p' as u8] {
        Err(ConeNameError::Psd)
    } else {
        Err(ConeNameError::Unknown)
    }
}

fn eq_lower(s: &[u8], target: &[u8]) -> (r: bool)
    ensures
        r <==> lowered(s@) == target@,
{
    if s.len() != target.len() {
        return false;
    }
    let mut i: usize = 0;
    while i < s.len()
        invariant
            s@.len() == target@.len(),
            i <= s@.len(),
            forall|j: int| 0 <= j < i ==> ascii_lower(s@[j]) == target@[j],
        decreases s@.len() - i,
    {
        let b = s[i];
        let l = if 65 <= b && b <= 90 { b + 32 } else { b };
        if l != target[i] {
            assert(lowered(s@)[i as int] != target@[i as int]);
            return false;
        }
        i = i + 1;
    }
    assert(lowered(s@) =~= target@);
    true
}

fn eq_lower_char(s: &[u8], c: u8) -> (r: bool)
    ensures
        r <==> lowered(s@) == seq![c],
{
    if s.len() != 1 {
        proof {
            assert(lowered(s@).len() != seq![c].len());
        }
        return false;
    }
    let b = s[0];
    let l = if 65 <= b && b <= 90 { b + 32 } else { b };
    proof {
        if l == c {
            assert(lowered(s@) =~= seq![c]);
        } else {
            assert(lowered(s@)[0] != seq![c][0]);
        }
    }
    l == c
}

fn eq_exact(s: &[u8], target: &[u8]) -> (r: bool)
    ensures
        r <==> s@ == target@,
{
    if s.len() != target.len() {
        return false;
    }
    let mut i: usize = 0;
    while i < s.len()
        invariant
            s@.len() == target@.len(),
            i <= s@.len(),
            forall|j: int| 0 <= j < i ==> s@[j] == target@[j],
        decreases s@.len() - i,
    {
        if s[i] != target[i] {
            return false;
        }
        i = i + 1;
    }
    assert(s@ =~= target@);
    true
}

/// The cone kind named `name`, matched without regard to ASCII case.
pub fn cone_kind_from_name(name: &str) -> (r: Result<ConeKind, ConeNameError>)
    ensures
        r == cone_kind_of(lowered(name.spec_bytes())),
        forall|k: ConeKind, i: int|
            0 <= i < cone_aliases(k).len() && lowered(name.spec_bytes()) == encode_utf8(
                #[trigger] cone_aliases(k)[i],
            ) ==> r == Ok::<ConeKind, ConeNameError>(k),
        forall|k: ConeKind, i: int|
            0 <= i < cone_aliases(k).len() && name@ == #[trigger] cone_aliases(k)[i] ==> r == Ok::<
                ConeKind,
                ConeNameError,
            >(k),
        forall|k: ConeKind| r == Ok::<ConeKind, ConeNameError>(k) ==> exists|i: int|
            0 <= i < cone_aliases(k).len() && lowered(name.spec_bytes()) == encode_utf8(
                #[trigger] cone_aliases(k)[i],
            ),
        forall|i: int|
            0 <= i < psd_names().len() && lowered(name.spec_bytes()) == encode_utf8(#[trigger] psd_names()[i])
                ==> r == Err::<ConeKind, ConeNameError>(ConeNameError::Psd),
{
    proof {
        lemma_cone_aliases(lowered(name.spec_bytes()));
    }
    let s = name.as_bytes();
    let ghost l = lowered(s@);
    assert(s@ == name.spec_bytes());
    let zero_0_t: [u8; 4] = ['z' as u8, 'e' as u8, 'r' as u8, 'o' as u8];
    let zero_0: bool = eq_lower(s, &zero_0_t);
    assert(zero_0 == (l =~= seq!['z' as u8, 'e' as u8, 'r' as u8, 'o' as u8]));
    let zero_1: bool = eq_lower_char(s, 'z' as u8);
    assert(zero_1 == (l =~= seq!['z' as u8]));
    let zero_2_t: [u8; 2] = ['e' as u8, 'q' as u8];
    let zero_2: bool = eq_lower(s, &zero_2_t);
    assert(zero_2 == (l =~= seq!['e' as u8, 'q' as u8]));
    if zero_0 || zero_1 || zero_2 {
        return Ok(ConeKind::Zero);
    }
    let nonnegative_0_t: [u8; 11] = ['n' as u8, 'o' as u8, 'n' as u8, 'n' as u8, 'e' as u8, 'g' as u8, 'a' as u8, 't' as u8, 'i' as u8, 'v' as u8, 'e' as u8];
    let nonnegative_0: bool = eq_lower(s, &nonnegative_0_t);
    assert(nonnegative_0 == (l =~= seq!['n' as u8, 'o' as u8, 'n' as u8, 'n' as u8, 'e' as u8, 'g' as u8, 'a' as u8, 't' as u8, 'i' as u8, 'v' as u8, 'e' as u8]));
    let nonnegative_1_t: [u8; 6] = ['n' as u8, 'o' as u8, 'n' as u8, 'n' as u8, 'e' as u8, 'g' as u8];
    let nonnegative_1: bool = eq_lower(s, &nonnegative_1_t);
    assert(nonnegative_1 == (l =~= seq!['n' as u8, 'o' as u8, 'n' as u8, 'n' as u8, 'e' as u8, 'g' as u8]));
    let nonnegative_2: bool = eq_lower_char(s, 'l' as u8);
    assert(nonnegative_2 == (l =~= seq!['l' as u8]));
    let nonnegative_3_t: [u8; 2] = ['n' as u8, 'n' as u8];
    let nonnegative_3: bool = eq_lower(s, &nonnegative_3_t);
    assert(nonnegative_3 == (l =~= seq!['n' as u8, 'n' as u8]));
    if nonnegative_0 || nonnegative_1 || nonnegative_2 || nonnegative_3 {
        return Ok(ConeKind::Nonnegative);
    }
    let secondorder_0_t: [u8; 3] = ['s' as u8, 'o' as u8, 'c' as u8];
    let secondorder_0: bool = eq_lower(s, &secondorder_0_t);
    assert(secondorder_0 == (l =~= seq!['s' as u8, 'o' as u8, 'c' as u8]));
    let secondorder_1: bool = eq_lower_char(s, 'q' as u8);
    assert(secondorder_1 == (l =~= seq!['q' as u8]));
    let secondorder_2_t: [u8; 11] = ['s' as u8, 'e' as u8, 'c' as u8, 'o' as u8, 'n' as u8, 'd' as u8, 'o' as u8, 'r' as u8, 'd' as u8, 'e' as u8, 'r' as u8];
    let secondorder_2: bool = eq_lower(s, &secondorder_2_t);
    assert(secondorder_2 == (l =~= seq!['s' as u8, 'e' as u8, 'c' as u8, 'o' as u8, 'n' as u8, 'd' as u8, 'o' as u8, 'r' as u8, 'd' as u8, 'e' as u8, 'r' as u8]));
    if secondorder_0 || secondorder_1 || secondorder_2 {
        return Ok(ConeKind::SecondOrder);
    }
    let exponential_0_t: [u8; 3] = ['e' as u8, 'x' as u8, 'p' as u8];
    let exponential_0: bool = eq_lower(s, &exponential_0_t);
    assert(exponential_0 == (l =~= seq!['e' as u8, 'x' as u8, 'p' as u8]));
    let exponential_1_t: [u8; 11] = ['e' as u8, 'x' as u8, 'p' as u8, 'o' as u8, 'n' as u8, 'e' as u8, 'n' as u8, 't' as u8, 'i' as u8, 'a' as u8, 'l' as u8];
    let exponential_1: bool = eq_lower(s, &exponential_1_t);
    assert(exponential_1 == (l =~= seq!['e' as u8, 'x' as u8, 'p' as u8, 'o' as u8, 'n' as u8, 'e' as u8, 'n' as u8, 't' as u8, 'i' as u8, 'a' as u8, 'l' as u8]));
    let exponential_2_t: [u8; 2] = ['e' as u8, 'p' as u8];
    let exponential_2: bool = eq_lower(s, &exponential_2_t);
    assert(exponential_2 == (l =~= seq!['e' as u8, 'p' as u8]));
    if exponential_0 || exponential_1 || exponential_2 {
        return Ok(ConeKind::Exponential);
    }
    let dualexponential_0_t: [u8; 7] = ['d' as u8, 'u' as u8, 'a' as u8, 'l' as u8, 'e' as u8, 'x' as u8, 'p' as u8];
    let dualexponential_0: bool = eq_lower(s, &dualexponential_0_t);
    assert(dualexponential_0 == (l =~= seq!['d' as u8, 'u' as u8, 'a' as u8, 'l' as u8, 'e' as u8, 'x' as u8, 'p' as u8]));
    let dualexponential_1_t: [u8; 2] = ['e' as u8, 'd' as u8];
    let dualexponential_1: bool = eq_lower(s, &dualexponential_1_t);
    assert(dualexponential_1 == (l =~= seq!['e' as u8, 'd' as u8]));
    if dualexponential_0 || dualexponential_1 {
        return Ok(ConeKind::DualExponential);
    }
    let power_0_t: [u8; 5] = ['p' as u8, 'o' as u8, 'w' as u8, 'e' as u8, 'r' as u8];
    let power_0: bool = eq_lower(s, &power_0_t);
    assert(power_0 == (l =~= seq!['p' as u8, 'o' as u8, 'w' as u8, 'e' as u8, 'r' as u8]));
    let power_1_t: [u8; 3] = ['p' as u8, 'o' as u8, 'w' as u8];
    let power_1: bool = eq_lower(s, &power_1_t);
    assert(power_1 == (l =~= seq!['p' as u8, 'o' as u8, 'w' as u8]));
    let power_2: bool = eq_lower_char(s, 'p' as u8);
    assert(power_2 == (l =~= seq!['p' as u8]));
    if power_0 || power_1 || power_2 {
        return Ok(ConeKind::Power);
    }
    let dualpower_0_t: [u8; 9] = ['d' as u8, 'u' as u8, 'a' as u8, 'l' as u8, 'p' as u8, 'o' as u8, 'w' as u8, 'e' as u8, 'r' as u8];
    let dualpower_0: bool = eq_lower(s, &dualpower_0_t);
    assert(dualpower_0 == (l =~= seq!['d' as u8, 'u' as u8, 'a' as u8, 'l' as u8, 'p' as u8, 'o' as u8, 'w' as u8, 'e' as u8, 'r' as u8]));
    if dualpower_0 {
        return Ok(ConeKind::DualPower);
    }
    let psd_0_t: [u8; 3] = ['p' as u8, 's' as u8, 'd' as u8];
    let psd_0: bool = eq_lower(s, &psd_0_t);
    assert(psd_0 == (l =~= seq!['p' as u8, 's' as u8, 'd' as u8]));
    let psd_1_t: [u8; 3] = ['s' as u8, 'd' as u8, 'p' as u8];
    let psd_1: bool = eq_lower(s, &psd_1_t);
    assert(psd_1 == (l =~= seq!['s' as u8, 'd' as u8, 'p' as u8]));
    if psd_0 || psd_1 {
        return Err(ConeNameError::Psd);
    }
    Err(ConeNameError::Unknown)
}

/// A solver setting that may be passed by keyword.
#[derive(Clone, Copy, Debug, PartialEq, Eq, Structural)]
pub enum SettingKey {
    Rho,
    Sigma,
    Alpha,
    EpsAbs,
    EpsRel,
    MaxIter,
    Verbose,
    Scaling,
    AdaptiveRho,
    Accelerate,
    TimeLimit,
    CheckTermination,
    EpsPrimInf,
    EpsDualInf,
    UseQuadObj,
}

/// The setting named by `key` (exact match), or none for an unrecognised
/// key. `use_quad_obj` is accepted and has no effect.
pub open spec fn setting_key_of(key: Seq<u8>) -> Option<SettingKey> {
    if key == seq!['r' as u8, 'h' as u8, 'o' as u8] {
        Some(SettingKey::Rho)
    } else if key == seq!['s' as u8, 'i' as u8, 'g' as u8, 'm' as u8, 'a' as u8] {
        Some(SettingKey::Sigma)
    } else if key == seq!['a' as u8, 'l' as u8, 'p' as u8, 'h' as u8, 'a' as u8] {
        Some(SettingKey::Alpha)
    } else if key == seq!['e' as u8, 'p' as u8, 's' as u8, '_' as u8, 'a' as u8, 'b' as u8, 's' as u8] {
        Some(SettingKey::EpsAbs)
    } else if key == seq!['e' as u8, 'p' as u8, 's' as u8, '_' as u8, 'r' as u8, 'e' as u8, 'l' as u8] {
        Some(SettingKey::EpsRel)
    } else if key == seq!['m' as u8, 'a' as u8, 'x' as u8, '_' as u8, 'i' as u8, 't' as u8, 'e' as u8, 'r' as u8] {
        Some(SettingKey::MaxIter)
    } else if key == seq!['v' as u8, 'e' as u8, 'r' as u8, 'b' as u8, 'o' as u8, 's' as u8, 'e' as u8] {
        Some(SettingKey::Verbose)
    } else if key == seq!['s' as u8, 'c' as u8, 'a' as u8, 'l' as u8, 'i' as u8, 'n' as u8, 'g' as u8] {
        Some(SettingKey::Scaling)
    } else if key == seq!['a' as u8, 'd' as u8, 'a' as u8, 'p' as u8, 't' as u8, 'i' as u8, 'v' as u8, 'e' as u8, '_' as u8, 'r' as u8, 'h' as u8, 'o' as u8] {
        Some(SettingKey::AdaptiveRho)
    } else if key == seq!['a' as u8, 'c' as u8, 'c' as u8, 'e' as u8, 'l' as u8, 'e' as u8, 'r' as u8, 'a' as u8, 't' as u8, 'e' as u8] {
        Some(SettingKey::Accelerate)
    } else if key == seq!['t' as u8, 'i' as u8, 'm' as u8, 'e' as u8, '_' as u8, 'l' as u8, 'i' as u8, 'm' as u8, 'i' as u8, 't' as u8] {
        Some(SettingKey::TimeLimit)
    } else if key == seq!['c' as u8, 'h' as u8, 'e' as u8, 'c' as u8, 'k' as u8, '_' as u8, 't' as u8, 'e' as u8, 'r' as u8, 'm' as u8, 'i' as u8, 'n' as u8, 'a' as u8, 't' as u8, 'i' as u8, 'o' as u8, 'n' as u8] {
        Some(SettingKey::CheckTermination)
    } else if key == seq!['e' as u8, 'p' as u8, 's' as u8, '_' as u8, 'p' as u8, 'r' as u8, 'i' as u8, 'm' as u8, '_' as u8, 'i' as u8, 'n' as u8, 'f' as u8] {
        Some(SettingKey::EpsPrimInf)
    } else if key == seq!['e' as u8, 'p' as u8, 's' as u8, '_' as u8, 'd' as u8, 'u' as u8, 'a' as u8, 'l' as u8, '_' as u8, 'i' as u8, 'n' as u8, 'f' as u8] {
        Some(SettingKey::EpsDualInf)
    } else if key == seq!['u' as u8, 's' as u8, 'e' as u8, '_' as u8, 'q' as u8, 'u' as u8, 'a' as u8, 'd' as u8, '_' as u8, 'o' as u8, 'b' as u8, 'j' as u8] {
        Some(SettingKey::UseQuadObj)
    } else {
        None
    }
}

/// The setting named `key`, matched exactly.
pub fn setting_key_from_name(key: &str) -> (r: Option<SettingKey>)
    ensures
        r == setting_key_of(key.spec_bytes()),
        forall|k: SettingKey| key@ == #[trigger] setting_keyword(k) <==> r == Some(k),
{
    proof {
        lemma_setting_keywords(key.spec_bytes());
        assert forall|k: SettingKey| key@ == #[trigger] setting_keyword(k) <==> setting_key_of(key.spec_bytes()) == Some(k) by {
            if setting_key_of(key.spec_bytes()) == Some(k) {
                lemma_encoding_injective(key@, setting_keyword(k));
            }
        }
    }
    let s = key.as_bytes();
    if eq_exact(s, &['r' as u8, 'h' as u8, 'o' as u8]) {
        return Some(SettingKey::Rho);
    }
    if eq_exact(s, &['s' as u8, 'i' as u8, 'g' as u8, 'm' as u8, 'a' as u8]) {
        return Some(SettingKey::Sigma);
    }
    if eq_exact(s, &['a' as u8, 'l' as u8, 'p' as u8, 'h' as u8, 'a' as u8]) {
        return Some(SettingKey::Alpha);
    }
    if eq_exact(s, &['e' as u8, 'p' as u8, 's' as u8, '_' as u8, 'a' as u8, 'b' as u8, 's' as u8]) {
        return Some(SettingKey::EpsAbs);
    }
    if eq_exact(s, &['e' as u8, 'p' as u8, 's' as u8, '_' as u8, 'r' as u8, 'e' as u8, 'l' as u8]) {
        return Some(SettingKey::EpsRel);
    }
    if eq_exact(s, &['m' as u8, 'a' as u8, 'x' as u8, '_' as u8, 'i' as u8, 't' as u8, 'e' as u8, 'r' as u8]) {
        return Some(SettingKey::MaxIter);
    }
    if eq_exact(s, &['v' as u8, 'e' as u8, 'r' as u8, 'b' as u8, 'o' as u8, 's' as u8, 'e' as u8]) {
        return Some(SettingKey::Verbose);
    }
    if eq_exact(s, &['s' as u8, 'c' as u8, 'a' as u8, 'l' as u8, 'i' as u8, 'n' as u8, 'g' as u8]) {
        return Some(SettingKey::Scaling);
    }
    if eq_exact(s, &['a' as u8, 'd' as u8, 'a' as u8, 'p' as u8, 't' as u8, 'i' as u8, 'v' as u8, 'e' as u8, '_' as u8, 'r' as u8, 'h' as u8, 'o' as u8]) {
        return Some(SettingKey::AdaptiveRho);
    }
    if eq_exact(s, &['a' as u8, 'c' as u8, 'c' as u8, 'e' as u8, 'l' as u8, 'e' as u8, 'r' as u8, 'a' as u8, 't' as u8, 'e' as u8]) {
        return Some(SettingKey::Accelerate);
    }
    if eq_exact(s, &['t' as u8, 'i' as u8, 'm' as u8, 'e' as u8, '_' as u8, 'l' as u8, 'i' as u8, 'm' as u8, 'i' as u8, 't' as u8]) {
        return Some(SettingKey::TimeLimit);
    }
    if eq_exact(s, &['c' as u8, 'h' as u8, 'e' as u8, 'c' as u8, 'k' as u8, '_' as u8, 't' as u8, 'e' as u8, 'r' as u8, 'm' as u8, 'i' as u8, 'n' as u8, 'a' as u8, 't' as u8, 'i' as u8, 'o' as u8, 'n' as u8]) {
        return Some(SettingKey::CheckTermination);
    }
    if eq_exact(s, &['e' as u8, 'p' as u8, 's' as u8, '_' as u8, 'p' as u8, 'r' as u8, 'i' as u8, 'm' as u8, '_' as u8, 'i' as u8, 'n' as u8, 'f' as u8]) {
        return Some(SettingKey::EpsPrimInf);
    }
    if eq_exact(s, &['e' as u8, 'p' as u8, 's' as u8, '_' as u8, 'd' as u8, 'u' as u8, 'a' as u8, 'l' as u8, '_' as u8, 'i' as u8, 'n' as u8, 'f' as u8]) {
        return Some(SettingKey::EpsDualInf);
    }
    if eq_exact(s, &['u' as u8, 's' as u8, 'e' as u8, '_' as u8, 'q' as u8, 'u' as u8, 'a' as u8, 'd' as u8, '_' as u8, 'o' as u8, 'b' as u8, 'j' as u8]) {
        return Some(SettingKey::UseQuadObj);
    }
    None
}




/// The bytes of an ASCII string are its characters, one byte each.
proof fn lemma_ascii_encoding(chars: Seq<char>)
    requires
        is_ascii_chars(chars),
    ensures
        encode_utf8(chars) == chars.map_values(|c: char| c as u8),
{
    is_ascii_chars_encode_utf8(chars);
    assert(encode_utf8(chars) =~= chars.map_values(|c: char| c as u8));
}

/// Two strings with the same UTF-8 encoding are equal.
proof fn lemma_encoding_injective(a: Seq<char>, b: Seq<char>)
    requires
        encode_utf8(a) == encode_utf8(b),
    ensures
        a == b,
{
    encode_utf8_decode_utf8(a);
    encode_utf8_decode_utf8(b);
}

/// The names under which each cone kind is accepted (in lowercase).
pub open spec fn cone_aliases(k: ConeKind) -> Seq<Seq<char>> {
    match k {
        ConeKind::Zero => seq!["zero"@, "z"@, "eq"@],
        ConeKind::Nonnegative => seq!["nonnegative"@, "nonneg"@, "l"@, "nn"@],
        ConeKind::SecondOrder => seq!["soc"@, "q"@, "secondorder"@],
        ConeKind::Exponential => seq!["exp"@, "exponential"@, "ep"@],
        ConeKind::DualExponential => seq!["dualexp"@, "ed"@],
        ConeKind::Power => seq!["power"@, "pow"@, "p"@],
        ConeKind::DualPower => seq!["dualpower"@],
    }
}

/// The names of the semidefinite cones, which are refused.
pub open spec fn psd_names() -> Seq<Seq<char>> {
    seq!["psd"@, "sdp"@]
}

/// The keyword under which each setting is passed.
pub open spec fn setting_keyword(k: SettingKey) -> Seq<char> {
    match k {
        SettingKey::Rho => "rho"@,
        SettingKey::Sigma => "sigma"@,
        SettingKey::Alpha => "alpha"@,
        SettingKey::EpsAbs => "eps_abs"@,
        SettingKey::EpsRel => "eps_rel"@,
        SettingKey::MaxIter => "max_iter"@,
        SettingKey::Verbose => "verbose"@,
        SettingKey::Scaling => "scaling"@,
        SettingKey::AdaptiveRho => "adaptive_rho"@,
        SettingKey::Accelerate => "accelerate"@,
        SettingKey::TimeLimit => "time_limit"@,
        SettingKey::CheckTermination => "check_termination"@,
        SettingKey::EpsPrimInf => "eps_prim_inf"@,
        SettingKey::EpsDualInf => "eps_dual_inf"@,
        SettingKey::UseQuadObj => "use_quad_obj"@,
    }
}

proof fn lemma_encoding_zero()
    ensures
        encode_utf8("zero"@) == seq!['z' as u8, 'e' as u8, 'r' as u8, 'o' as u8],
{
    reveal_strlit("zero");
    lemma_ascii_encoding("zero"@);
    assert("zero"@.map_values(|c: char| c as u8) =~= seq!['z' as u8, 'e' as u8, 'r' as u8, 'o' as u8]);
}

proof fn lemma_encoding_z()
    ensures
        encode_utf8("z"@) == seq!['z' as u8],
{
    reveal_strlit("z");
    lemma_ascii_encoding("z"@);
    assert("z"@.map_values(|c: char| c as u8) =~= seq!['z' as u8]);
}

proof fn lemma_encoding_eq()
    ensures
        encode_utf8("eq"@) == seq!['e' as u8, 'q' as u8],
{
    reveal_strlit("eq");
    lemma_ascii_encoding("eq"@);
    assert("eq"@.map_values(|c: char| c as u8) =~= seq!['e' as u8, 'q' as u8]);
}

proof fn lemma_encoding_nonnegative()
    ensures
        encode_utf8("nonnegative"@) == seq!['n' as u8, 'o' as u8, 'n' as u8, 'n' as u8, 'e' as u8, 'g' as u8, 'a' as u8, 't' as u8, 'i' as u8, 'v' as u8, 'e' as u8],
{
    reveal_strlit("nonnegative");
    lemma_ascii_encoding("nonnegative"@);
    assert("nonnegative"@.map_values(|c: char| c as u8) =~= seq!['n' as u8, 'o' as u8, 'n' as u8, 'n' as u8, 'e' as u8, 'g' as u8, 'a' as u8, 't' as u8, 'i' as u8, 'v' as u8, 'e' as u8]);
}

proof fn lemma_encoding_nonneg()
    ensures
        encode_utf8("nonneg"@) == seq!['n' as u8, 'o' as u8, 'n' as u8, 'n' as u8, 'e' as u8, 'g' as u8],
{
    reveal_strlit("nonneg");
    lemma_ascii_encoding("nonneg"@);
    assert("nonneg"@.map_values(|c: char| c as u8) =~= seq!['n' as u8, 'o' as u8, 'n' as u8, 'n' as u8, 'e' as u8, 'g' as u8]);
}

proof fn lemma_encoding_l()
    ensures
        encode_utf8("l"@) == seq!['l' as u8],
{
    reveal_strlit("l");
    lemma_ascii_encoding("l"@);
    assert("l"@.map_values(|c: char| c as u8) =~= seq!['l' as u8]);
}

proof fn lemma_encoding_nn()
    ensures
        encode_utf8("nn"@) == seq!['n' as u8, 'n' as u8],
{
    reveal_strlit("nn");
    lemma_ascii_encoding("nn"@);
    assert("nn"@.map_values(|c: char| c as u8) =~= seq!['n' as u8, 'n' as u8]);
}

proof fn lemma_encoding_soc()
    ensures
        encode_utf8("soc"@) == seq!['s' as u8, 'o' as u8, 'c' as u8],
{
    reveal_strlit("soc");
    lemma_ascii_encoding("soc"@);
    assert("soc"@.map_values(|c: char| c as u8) =~= seq!['s' as u8, 'o' as u8, 'c' as u8]);
}

proof fn lemma_encoding_q()
    ensures
        encode_utf8("q"@) == seq!['q' as u8],
{
    reveal_strlit("q");
    lemma_ascii_encoding("q"@);
    assert("q"@.map_values(|c: char| c as u8) =~= seq!['q' as u8]);
}

proof fn lemma_encoding_secondorder()
    ensures
        encode_utf8("secondorder"@) == seq!['s' as u8, 'e' as u8, 'c' as u8, 'o' as u8, 'n' as u8, 'd' as u8, 'o' as u8, 'r' as u8, 'd' as u8, 'e' as u8, 'r' as u8],
{
    reveal_strlit("secondorder");
    lemma_ascii_encoding("secondorder"@);
    assert("secondorder"@.map_values(|c: char| c as u8) =~= seq!['s' as u8, 'e' as u8, 'c' as u8, 'o' as u8, 'n' as u8, 'd' as u8, 'o' as u8, 'r' as u8, 'd' as u8, 'e' as u8, 'r' as u8]);
}

proof fn lemma_encoding_exp()
    ensures
        encode_utf8("exp"@) == seq!['e' as u8, 'x' as u8, 'p' as u8],
{
    reveal_strlit("exp");
    lemma_ascii_encoding("exp"@);
    assert("exp"@.map_values(|c: char| c as u8) =~= seq!['e' as u8, 'x' as u8, 'p' as u8]);
}

proof fn lemma_encoding_exponential()
    ensures
        encode_utf8("exponential"@) == seq!['e' as u8, 'x' as u8, 'p' as u8, 'o' as u8, 'n' as u8, 'e' as u8, 'n' as u8, 't' as u8, 'i' as u8, 'a' as u8, 'l' as u8],
{
    reveal_strlit("exponential");
    lemma_ascii_encoding("exponential"@);
    assert("exponential"@.map_values(|c: char| c as u8) =~= seq!['e' as u8, 'x' as u8, 'p' as u8, 'o' as u8, 'n' as u8, 'e' as u8, 'n' as u8, 't' as u8, 'i' as u8, 'a' as u8, 'l' as u8]);
}

proof fn lemma_encoding_ep()
    ensures
        encode_utf8("ep"@) == seq!['e' as u8, 'p' as u8],
{
    reveal_strlit("ep");
    lemma_ascii_encoding("ep"@);
    assert("ep"@.map_values(|c: char| c as u8) =~= seq!['e' as u8, 'p' as u8]);
}

proof fn lemma_encoding_dualexp()
    ensures
        encode_utf8("dualexp"@) == seq!['d' as u8, 'u' as u8, 'a' as u8, 'l' as u8, 'e' as u8, 'x' as u8, 'p' as u8],
{
    reveal_strlit("dualexp");
    lemma_ascii_encoding("dualexp"@);
    assert("dualexp"@.map_values(|c: char| c as u8) =~= seq!['d' as u8, 'u' as u8, 'a' as u8, 'l' as u8, 'e' as u8, 'x' as u8, 'p' as u8]);
}

proof fn lemma_encoding_ed()
    ensures
        encode_utf8("ed"@) == seq!['e' as u8, 'd' as u8],
{
    reveal_strlit("ed");
    lemma_ascii_encoding("ed"@);
    assert("ed"@.map_values(|c: char| c as u8) =~= seq!['e' as u8, 'd' as u8]);
}

proof fn lemma_encoding_power()
    ensures
        encode_utf8("power"@) == seq!['p' as u8, 'o' as u8, 'w' as u8, 'e' as u8, 'r' as u8],
{
    reveal_strlit("power");
    lemma_ascii_encoding("power"@);
    assert("power"@.map_values(|c: char| c as u8) =~= seq!['p' as u8, 'o' as u8, 'w' as u8, 'e' as u8, 'r' as u8]);
}

proof fn lemma_encoding_pow()
    ensures
        encode_utf8("pow"@) == seq!['p' as u8, 'o' as u8, 'w' as u8],
{
    reveal_strlit("pow");
    lemma_ascii_encoding("pow"@);
    assert("pow"@.map_values(|c: char| c as u8) =~= seq!['p' as u8, 'o' as u8, 'w' as u8]);
}

proof fn lemma_encoding_p()
    ensures
        encode_utf8("p"@) == seq!['p' as u8],
{
    reveal_strlit("p");
    lemma_ascii_encoding("p"@);
    assert("p"@.map_values(|c: char| c as u8) =~= seq!['p' as u8]);
}

proof fn lemma_encoding_dualpower()
    ensures
        encode_utf8("dualpower"@) == seq!['d' as u8, 'u' as u8, 'a' as u8, 'l' as u8, 'p' as u8, 'o' as u8, 'w' as u8, 'e' as u8, 'r' as u8],
{
    reveal_strlit("dualpower");
    lemma_ascii_encoding("dualpower"@);
    assert("dualpower"@.map_values(|c: char| c as u8) =~= seq!['d' as u8, 'u' as u8, 'a' as u8, 'l' as u8, 'p' as u8, 'o' as u8, 'w' as u8, 'e' as u8, 'r' as u8]);
}

proof fn lemma_encoding_psd()
    ensures
        encode_utf8("psd"@) == seq!['p' as u8, 's' as u8, 'd' as u8],
{
    reveal_strlit("psd");
    lemma_ascii_encoding("psd"@);
    assert("psd"@.map_values(|c: char| c as u8) =~= seq!['p' as u8, 's' as u8, 'd' as u8]);
}

proof fn lemma_encoding_sdp()
    ensures
        encode_utf8("sdp"@) == seq!['s' as u8, 'd' as u8, 'p' as u8],
{
    reveal_strlit("sdp");
    lemma_ascii_encoding("sdp"@);
    assert("sdp"@.map_values(|c: char| c as u8) =~= seq!['s' as u8, 'd' as u8, 'p' as u8]);
}

proof fn lemma_encoding_rho()
    ensures
        encode_utf8("rho"@) == seq!['r' as u8, 'h' as u8, 'o' as u8],
{
    reveal_strlit("rho");
    lemma_ascii_encoding("rho"@);
    assert("rho"@.map_values(|c: char| c as u8) =~= seq!['r' as u8, 'h' as u8, 'o' as u8]);
}

proof fn lemma_encoding_sigma()
    ensures
        encode_utf8("sigma"@) == seq!['s' as u8, 'i' as u8, 'g' as u8, 'm' as u8, 'a' as u8],
{
    reveal_strlit("sigma");
    lemma_ascii_encoding("sigma"@);
    assert("sigma"@.map_values(|c: char| c as u8) =~= seq!['s' as u8, 'i' as u8, 'g' as u8, 'm' as u8, 'a' as u8]);
}

proof fn lemma_encoding_alpha()
    ensures
        encode_utf8("alpha"@) == seq!['a' as u8, 'l' as u8, 'p' as u8, 'h' as u8, 'a' as u8],
{
    reveal_strlit("alpha");
    lemma_ascii_encoding("alpha"@);
    assert("alpha"@.map_values(|c: char| c as u8) =~= seq!['a' as u8, 'l' as u8, 'p' as u8, 'h' as u8, 'a' as u8]);
}

proof fn lemma_encoding_eps_abs()
    ensures
        encode_utf8("eps_abs"@) == seq!['e' as u8, 'p' as u8, 's' as u8, '_' as u8, 'a' as u8, 'b' as u8, 's' as u8],
{
    reveal_strlit("eps_abs");
    lemma_ascii_encoding("eps_abs"@);
    assert("eps_abs"@.map_values(|c: char| c as u8) =~= seq!['e' as u8, 'p' as u8, 's' as u8, '_' as u8, 'a' as u8, 'b' as u8, 's' as u8]);
}

proof fn lemma_encoding_eps_rel()
    ensures
        encode_utf8("eps_rel"@) == seq!['e' as u8, 'p' as u8, 's' as u8, '_' as u8, 'r' as u8, 'e' as u8, 'l' as u8],
{
    reveal_strlit("eps_rel");
    lemma_ascii_encoding("eps_rel"@);
    assert("eps_rel"@.map_values(|c: char| c as u8) =~= seq!['e' as u8, 'p' as u8, 's' as u8, '_' as u8, 'r' as u8, 'e' as u8, 'l' as u8]);
}

proof fn lemma_encoding_max_iter()
    ensures
        encode_utf8("max_iter"@) == seq!['m' as u8, 'a' as u8, 'x' as u8, '_' as u8, 'i' as u8, 't' as u8, 'e' as u8, 'r' as u8],
{
    reveal_strlit("max_iter");
    lemma_ascii_encoding("max_iter"@);
    assert("max_iter"@.map_values(|c: char| c as u8) =~= seq!['m' as u8, 'a' as u8, 'x' as u8, '_' as u8, 'i' as u8, 't' as u8, 'e' as u8, 'r' as u8]);
}

proof fn lemma_encoding_verbose()
    ensures
        encode_utf8("verbose"@) == seq!['v' as u8, 'e' as u8, 'r' as u8, 'b' as u8, 'o' as u8, 's' as u8, 'e' as u8],
{
    reveal_strlit("verbose");
    lemma_ascii_encoding("verbose"@);
    assert("verbose"@.map_values(|c: char| c as u8) =~= seq!['v' as u8, 'e' as u8, 'r' as u8, 'b' as u8, 'o' as u8, 's' as u8, 'e' as u8]);
}

proof fn lemma_encoding_scaling()
    ensures
        encode_utf8("scaling"@) == seq!['s' as u8, 'c' as u8, 'a' as u8, 'l' as u8, 'i' as u8, 'n' as u8, 'g' as u8],
{
    reveal_strlit("scaling");
    lemma_ascii_encoding("scaling"@);
    assert("scaling"@.map_values(|c: char| c as u8) =~= seq!['s' as u8, 'c' as u8, 'a' as u8, 'l' as u8, 'i' as u8, 'n' as u8, 'g' as u8]);
}

proof fn lemma_encoding_adaptive_rho()
    ensures
        encode_utf8("adaptive_rho"@) == seq!['a' as u8, 'd' as u8, 'a' as u8, 'p' as u8, 't' as u8, 'i' as u8, 'v' as u8, 'e' as u8, '_' as u8, 'r' as u8, 'h' as u8, 'o' as u8],
{
    reveal_strlit("adaptive_rho");
    lemma_ascii_encoding("adaptive_rho"@);
    assert("adaptive_rho"@.map_values(|c: char| c as u8) =~= seq!['a' as u8, 'd' as u8, 'a' as u8, 'p' as u8, 't' as u8, 'i' as u8, 'v' as u8, 'e' as u8, '_' as u8, 'r' as u8, 'h' as u8, 'o' as u8]);
}

proof fn lemma_encoding_accelerate()
    ensures
        encode_utf8("accelerate"@) == seq!['a' as u8, 'c' as u8, 'c' as u8, 'e' as u8, 'l' as u8, 'e' as u8, 'r' as u8, 'a' as u8, 't' as u8, 'e' as u8],
{
    reveal_strlit("accelerate");
    lemma_ascii_encoding("accelerate"@);
    assert("accelerate"@.map_values(|c: char| c as u8) =~= seq!['a' as u8, 'c' as u8, 'c' as u8, 'e' as u8, 'l' as u8, 'e' as u8, 'r' as u8, 'a' as u8, 't' as u8, 'e' as u8]);
}

proof fn lemma_encoding_time_limit()
    ensures
        encode_utf8("time_limit"@) == seq!['t' as u8, 'i' as u8, 'm' as u8, 'e' as u8, '_' as u8, 'l' as u8, 'i' as u8, 'm' as u8, 'i' as u8, 't' as u8],
{
    reveal_strlit("time_limit");
    lemma_ascii_encoding("time_limit"@);
    assert("time_limit"@.map_values(|c: char| c as u8) =~= seq!['t' as u8, 'i' as u8, 'm' as u8, 'e' as u8, '_' as u8, 'l' as u8, 'i' as u8, 'm' as u8, 'i' as u8, 't' as u8]);
}

proof fn lemma_encoding_check_termination()
    ensures
        encode_utf8("check_termination"@) == seq!['c' as u8, 'h' as u8, 'e' as u8, 'c' as u8, 'k' as u8, '_' as u8, 't' as u8, 'e' as u8, 'r' as u8, 'm' as u8, 'i' as u8, 'n' as u8, 'a' as u8, 't' as u8, 'i' as u8, 'o' as u8, 'n' as u8],
{
    reveal_strlit("check_termination");
    lemma_ascii_encoding("check_termination"@);
    assert("check_termination"@.map_values(|c: char| c as u8) =~= seq!['c' as u8, 'h' as u8, 'e' as u8, 'c' as u8, 'k' as u8, '_' as u8, 't' as u8, 'e' as u8, 'r' as u8, 'm' as u8, 'i' as u8, 'n' as u8, 'a' as u8, 't' as u8, 'i' as u8, 'o' as u8, 'n' as u8]);
}

proof fn lemma_encoding_eps_prim_inf()
    ensures
        encode_utf8("eps_prim_inf"@) == seq!['e' as u8, 'p' as u8, 's' as u8, '_' as u8, 'p' as u8, 'r' as u8, 'i' as u8, 'm' as u8, '_' as u8, 'i' as u8, 'n' as u8, 'f' as u8],
{
    reveal_strlit("eps_prim_inf");
    lemma_ascii_encoding("eps_prim_inf"@);
    assert("eps_prim_inf"@.map_values(|c: char| c as u8) =~= seq!['e' as u8, 'p' as u8, 's' as u8, '_' as u8, 'p' as u8, 'r' as u8, 'i' as u8, 'm' as u8, '_' as u8, 'i' as u8, 'n' as u8, 'f' as u8]);
}

proof fn lemma_encoding_eps_dual_inf()
    ensures
        encode_utf8("eps_dual_inf"@) == seq!['e' as u8, 'p' as u8, 's' as u8, '_' as u8, 'd' as u8, 'u' as u8, 'a' as u8, 'l' as u8, '_' as u8, 'i' as u8, 'n' as u8, 'f' as u8],
{
    reveal_strlit("eps_dual_inf");
    lemma_ascii_encoding("eps_dual_inf"@);
    assert("eps_dual_inf"@.map_values(|c: char| c as u8) =~= seq!['e' as u8, 'p' as u8, 's' as u8, '_' as u8, 'd' as u8, 'u' as u8, 'a' as u8, 'l' as u8, '_' as u8, 'i' as u8, 'n' as u8, 'f' as u8]);
}

proof fn lemma_encoding_use_quad_obj()
    ensures
        encode_utf8("use_quad_obj"@) == seq!['u' as u8, 's' as u8, 'e' as u8, '_' as u8, 'q' as u8, 'u' as u8, 'a' as u8, 'd' as u8, '_' as u8, 'o' as u8, 'b' as u8, 'j' as u8],
{
    reveal_strlit("use_quad_obj");
    lemma_ascii_encoding("use_quad_obj"@);
    assert("use_quad_obj"@.map_values(|c: char| c as u8) =~= seq!['u' as u8, 's' as u8, 'e' as u8, '_' as u8, 'q' as u8, 'u' as u8, 'a' as u8, 'd' as u8, '_' as u8, 'o' as u8, 'b' as u8, 'j' as u8]);
}

/// Alias `i` of kind `k`, in lowercase, names `k`.
#[verifier::spinoff_prover]
proof fn lemma_cone_alias_at(k: ConeKind, i: int)
    requires
        0 <= i < cone_aliases(k).len(),
    ensures
        cone_kind_of(encode_utf8(cone_aliases(k)[i])) == Ok::<ConeKind, ConeNameError>(k),
        lowered(encode_utf8(cone_aliases(k)[i])) == encode_utf8(cone_aliases(k)[i]),
{
    match k {
        ConeKind::Zero => {
            if i == 0 {
                lemma_encoding_zero();
                assert(seq!['z' as u8, 'e' as u8, 'r' as u8, 'o' as u8][0] == 'z' as u8); assert(seq!['z' as u8, 'e' as u8, 'r' as u8, 'o' as u8][1] == 'e' as u8); assert(seq!['z' as u8, 'e' as u8, 'r' as u8, 'o' as u8][2] == 'r' as u8); assert(seq!['z' as u8, 'e' as u8, 'r' as u8, 'o' as u8][3] == 'o' as u8);
                assert(cone_kind_of(seq!['z' as u8, 'e' as u8, 'r' as u8, 'o' as u8]) == Ok::<ConeKind, ConeNameError>(ConeKind::Zero));
                assert(lowered(seq!['z' as u8, 'e' as u8, 'r' as u8, 'o' as u8]) =~= seq!['z' as u8, 'e' as u8, 'r' as u8, 'o' as u8]);
            } else if i == 1 {
                lemma_encoding_z();
                assert(seq!['z' as u8][0] == 'z' as u8);
                assert(cone_kind_of(seq!['z' as u8]) == Ok::<ConeKind, ConeNameError>(ConeKind::Zero));
                assert(lowered(seq!['z' as u8]) =~= seq!['z' as u8]);
            } else if i == 2 {
                lemma_encoding_eq();
                assert(seq!['e' as u8, 'q' as u8][0] == 'e' as u8); assert(seq!['e' as u8, 'q' as u8][1] == 'q' as u8);
                assert(cone_kind_of(seq!['e' as u8, 'q' as u8]) == Ok::<ConeKind, ConeNameError>(ConeKind::Zero));
                assert(lowered(seq!['e' as u8, 'q' as u8]) =~= seq!['e' as u8, 'q' as u8]);
            }
        },
        ConeKind::Nonnegative => {
            if i == 0 {
                lemma_encoding_nonnegative();
                assert(seq!['n' as u8, 'o' as u8, 'n' as u8, 'n' as u8, 'e' as u8, 'g' as u8, 'a' as u8, 't' as u8, 'i' as u8, 'v' as u8, 'e' as u8][0] == 'n' as u8); assert(seq!['n' as u8, 'o' as u8, 'n' as u8, 'n' as u8, 'e' as u8, 'g' as u8, 'a' as u8, 't' as u8, 'i' as u8, 'v' as u8, 'e' as u8][1] == 'o' as u8); assert(seq!['n' as u8, 'o' as u8, 'n' as u8, 'n' as u8, 'e' as u8, 'g' as u8, 'a' as u8, 't' as u8, 'i' as u8, 'v' as u8, 'e' as u8][2] == 'n' as u8); assert(seq!['n' as u8, 'o' as u8, 'n' as u8, 'n' as u8, 'e' as u8, 'g' as u8, 'a' as u8, 't' as u8, 'i' as u8, 'v' as u8, 'e' as u8][3] == 'n' as u8); assert(seq!['n' as u8, 'o' as u8, 'n' as u8, 'n' as u8, 'e' as u8, 'g' as u8, 'a' as u8, 't' as u8, 'i' as u8, 'v' as u8, 'e' as u8][4] == 'e' as u8); assert(seq!['n' as u8, 'o' as u8, 'n' as u8, 'n' as u8, 'e' as u8, 'g' as u8, 'a' as u8, 't' as u8, 'i' as u8, 'v' as u8, 'e' as u8][5] == 'g' as u8); assert(seq!['n' as u8, 'o' as u8, 'n' as u8, 'n' as u8, 'e' as u8, 'g' as u8, 'a' as u8, 't' as u8, 'i' as u8, 'v' as u8, 'e' as u8][6] == 'a' as u8); assert(seq!['n' as u8, 'o' as u8, 'n' as u8, 'n' as u8, 'e' as u8, 'g' as u8, 'a' as u8, 't' as u8, 'i' as u8, 'v' as u8, 'e' as u8][7] == 't' as u8); assert(seq!['n' as u8, 'o' as u8, 'n' as u8, 'n' as u8, 'e' as u8, 'g' as u8, 'a' as u8, 't' as u8, 'i' as u8, 'v' as u8, 'e' as u8][8] == 'i' as u8); assert(seq!['n' as u8, 'o' as u8, 'n' as u8, 'n' as u8, 'e' as u8, 'g' as u8, 'a' as u8, 't' as u8, 'i' as u8, 'v' as u8, 'e' as u8][9] == 'v' as u8); assert(seq!['n' as u8, 'o' as u8, 'n' as u8, 'n' as u8, 'e' as u8, 'g' as u8, 'a' as u8, 't' as u8, 'i' as u8, 'v' as u8, 'e' as u8][10] == 'e' as u8);
                assert(cone_kind_of(seq!['n' as u8, 'o' as u8, 'n' as u8, 'n' as u8, 'e' as u8, 'g' as u8, 'a' as u8, 't' as u8, 'i' as u8, 'v' as u8, 'e' as u8]) == Ok::<ConeKind, ConeNameError>(ConeKind::Nonnegative));
                assert(lowered(seq!['n' as u8, 'o' as u8, 'n' as u8, 'n' as u8, 'e' as u8, 'g' as u8, 'a' as u8, 't' as u8, 'i' as u8, 'v' as u8, 'e' as u8]) =~= seq!['n' as u8, 'o' as u8, 'n' as u8, 'n' as u8, 'e' as u8, 'g' as u8, 'a' as u8, 't' as u8, 'i' as u8, 'v' as u8, 'e' as u8]);
            } else if i == 1 {
                lemma_encoding_nonneg();
                assert(seq!['n' as u8, 'o' as u8, 'n' as u8, 'n' as u8, 'e' as u8, 'g' as u8][0] == 'n' as u8); assert(seq!['n' as u8, 'o' as u8, 'n' as u8, 'n' as u8, 'e' as u8, 'g' as u8][1] == 'o' as u8); assert(seq!['n' as u8, 'o' as u8, 'n' as u8, 'n' as u8, 'e' as u8, 'g' as u8][2] == 'n' as u8); assert(seq!['n' as u8, 'o' as u8, 'n' as u8, 'n' as u8, 'e' as u8, 'g' as u8][3] == 'n' as u8); assert(seq!['n' as u8, 'o' as u8, 'n' as u8, 'n' as u8, 'e' as u8, 'g' as u8][4] == 'e' as u8); assert(seq!['n' as u8, 'o' as u8, 'n' as u8, 'n' as u8, 'e' as u8, 'g' as u8][5] == 'g' as u8);
                assert(cone_kind_of(seq!['n' as u8, 'o' as u8, 'n' as u8, 'n' as u8, 'e' as u8, 'g' as u8]) == Ok::<ConeKind, ConeNameError>(ConeKind::Nonnegative));
                assert(lowered(seq!['n' as u8, 'o' as u8, 'n' as u8, 'n' as u8, 'e' as u8, 'g' as u8]) =~= seq!['n' as u8, 'o' as u8, 'n' as u8, 'n' as u8, 'e' as u8, 'g' as u8]);
            } else if i == 2 {
                lemma_encoding_l();
                assert(seq!['l' as u8][0] == 'l' as u8);
                assert(cone_kind_of(seq!['l' as u8]) == Ok::<ConeKind, ConeNameError>(ConeKind::Nonnegative));
                assert(lowered(seq!['l' as u8]) =~= seq!['l' as u8]);
            } else if i == 3 {
                lemma_encoding_nn();
                assert(seq!['n' as u8, 'n' as u8][0] == 'n' as u8); assert(seq!['n' as u8, 'n' as u8][1] == 'n' as u8);
                assert(cone_kind_of(seq!['n' as u8, 'n' as u8]) == Ok::<ConeKind, ConeNameError>(ConeKind::Nonnegative));
                assert(lowered(seq!['n' as u8, 'n' as u8]) =~= seq!['n' as u8, 'n' as u8]);
            }
        },
        ConeKind::SecondOrder => {
            if i == 0 {
                lemma_encoding_soc();
                assert(seq!['s' as u8, 'o' as u8, 'c' as u8][0] == 's' as u8); assert(seq!['s' as u8, 'o' as u8, 'c' as u8][1] == 'o' as u8); assert(seq!['s' as u8, 'o' as u8, 'c' as u8][2] == 'c' as u8);
                assert(cone_kind_of(seq!['s' as u8, 'o' as u8, 'c' as u8]) == Ok::<ConeKind, ConeNameError>(ConeKind::SecondOrder));
                assert(lowered(seq!['s' as u8, 'o' as u8, 'c' as u8]) =~= seq!['s' as u8, 'o' as u8, 'c' as u8]);
            } else if i == 1 {
                lemma_encoding_q();
                assert(seq!['q' as u8][0] == 'q' as u8);
                assert(cone_kind_of(seq!['q' as u8]) == Ok::<ConeKind, ConeNameError>(ConeKind::SecondOrder));
                assert(lowered(seq!['q' as u8]) =~= seq!['q' as u8]);
            } else if i == 2 {
                lemma_encoding_secondorder();
                assert(seq!['s' as u8, 'e' as u8, 'c' as u8, 'o' as u8, 'n' as u8, 'd' as u8, 'o' as u8, 'r' as u8, 'd' as u8, 'e' as u8, 'r' as u8][0] == 's' as u8); assert(seq!['s' as u8, 'e' as u8, 'c' as u8, 'o' as u8, 'n' as u8, 'd' as u8, 'o' as u8, 'r' as u8, 'd' as u8, 'e' as u8, 'r' as u8][1] == 'e' as u8); assert(seq!['s' as u8, 'e' as u8, 'c' as u8, 'o' as u8, 'n' as u8, 'd' as u8, 'o' as u8, 'r' as u8, 'd' as u8, 'e' as u8, 'r' as u8][2] == 'c' as u8); assert(seq!['s' as u8, 'e' as u8, 'c' as u8, 'o' as u8, 'n' as u8, 'd' as u8, 'o' as u8, 'r' as u8, 'd' as u8, 'e' as u8, 'r' as u8][3] == 'o' as u8); assert(seq!['s' as u8, 'e' as u8, 'c' as u8, 'o' as u8, 'n' as u8, 'd' as u8, 'o' as u8, 'r' as u8, 'd' as u8, 'e' as u8, 'r' as u8][4] == 'n' as u8); assert(seq!['s' as u8, 'e' as u8, 'c' as u8, 'o' as u8, 'n' as u8, 'd' as u8, 'o' as u8, 'r' as u8, 'd' as u8, 'e' as u8, 'r' as u8][5] == 'd' as u8); assert(seq!['s' as u8, 'e' as u8, 'c' as u8, 'o' as u8, 'n' as u8, 'd' as u8, 'o' as u8, 'r' as u8, 'd' as u8, 'e' as u8, 'r' as u8][6] == 'o' as u8); assert(seq!['s' as u8, 'e' as u8, 'c' as u8, 'o' as u8, 'n' as u8, 'd' as u8, 'o' as u8, 'r' as u8, 'd' as u8, 'e' as u8, 'r' as u8][7] == 'r' as u8); assert(seq!['s' as u8, 'e' as u8, 'c' as u8, 'o' as u8, 'n' as u8, 'd' as u8, 'o' as u8, 'r' as u8, 'd' as u8, 'e' as u8, 'r' as u8][8] == 'd' as u8); assert(seq!['s' as u8, 'e' as u8, 'c' as u8, 'o' as u8, 'n' as u8, 'd' as u8, 'o' as u8, 'r' as u8, 'd' as u8, 'e' as u8, 'r' as u8][9] == 'e' as u8); assert(seq!['s' as u8, 'e' as u8, 'c' as u8, 'o' as u8, 'n' as u8, 'd' as u8, 'o' as u8, 'r' as u8, 'd' as u8, 'e' as u8, 'r' as u8][10] == 'r' as u8);
                assert(cone_kind_of(seq!['s' as u8, 'e' as u8, 'c' as u8, 'o' as u8, 'n' as u8, 'd' as u8, 'o' as u8, 'r' as u8, 'd' as u8, 'e' as u8, 'r' as u8]) == Ok::<ConeKind, ConeNameError>(ConeKind::SecondOrder));
                assert(lowered(seq!['s' as u8, 'e' as u8, 'c' as u8, 'o' as u8, 'n' as u8, 'd' as u8, 'o' as u8, 'r' as u8, 'd' as u8, 'e' as u8, 'r' as u8]) =~= seq!['s' as u8, 'e' as u8, 'c' as u8, 'o' as u8, 'n' as u8, 'd' as u8, 'o' as u8, 'r' as u8, 'd' as u8, 'e' as u8, 'r' as u8]);
            }
        },
        ConeKind::Exponential => {
            if i == 0 {
                lemma_encoding_exp();
                assert(seq!['e' as u8, 'x' as u8, 'p' as u8][0] == 'e' as u8); assert(seq!['e' as u8, 'x' as u8, 'p' as u8][1] == 'x' as u8); assert(seq!['e' as u8, 'x' as u8, 'p' as u8][2] == 'p' as u8);
                assert(cone_kind_of(seq!['e' as u8, 'x' as u8, 'p' as u8]) == Ok::<ConeKind, ConeNameError>(ConeKind::Exponential));
                assert(lowered(seq!['e' as u8, 'x' as u8, 'p' as u8]) =~= seq!['e' as u8, 'x' as u8, 'p' as u8]);
            } else if i == 1 {
                lemma_encoding_exponential();
                assert(seq!['e' as u8, 'x' as u8, 'p' as u8, 'o' as u8, 'n' as u8, 'e' as u8, 'n' as u8, 't' as u8, 'i' as u8, 'a' as u8, 'l' as u8][0] == 'e' as u8); assert(seq!['e' as u8, 'x' as u8, 'p' as u8, 'o' as u8, 'n' as u8, 'e' as u8, 'n' as u8, 't' as u8, 'i' as u8, 'a' as u8, 'l' as u8][1] == 'x' as u8); assert(seq!['e' as u8, 'x' as u8, 'p' as u8, 'o' as u8, 'n' as u8, 'e' as u8, 'n' as u8, 't' as u8, 'i' as u8, 'a' as u8, 'l' as u8][2] == 'p' as u8); assert(seq!['e' as u8, 'x' as u8, 'p' as u8, 'o' as u8, 'n' as u8, 'e' as u8, 'n' as u8, 't' as u8, 'i' as u8, 'a' as u8, 'l' as u8][3] == 'o' as u8); assert(seq!['e' as u8, 'x' as u8, 'p' as u8, 'o' as u8, 'n' as u8, 'e' as u8, 'n' as u8, 't' as u8, 'i' as u8, 'a' as u8, 'l' as u8][4] == 'n' as u8); assert(seq!['e' as u8, 'x' as u8, 'p' as u8, 'o' as u8, 'n' as u8, 'e' as u8, 'n' as u8, 't' as u8, 'i' as u8, 'a' as u8, 'l' as u8][5] == 'e' as u8); assert(seq!['e' as u8, 'x' as u8, 'p' as u8, 'o' as u8, 'n' as u8, 'e' as u8, 'n' as u8, 't' as u8, 'i' as u8, 'a' as u8, 'l' as u8][6] == 'n' as u8); assert(seq!['e' as u8, 'x' as u8, 'p' as u8, 'o' as u8, 'n' as u8, 'e' as u8, 'n' as u8, 't' as u8, 'i' as u8, 'a' as u8, 'l' as u8][7] == 't' as u8); assert(seq!['e' as u8, 'x' as u8, 'p' as u8, 'o' as u8, 'n' as u8, 'e' as u8, 'n' as u8, 't' as u8, 'i' as u8, 'a' as u8, 'l' as u8][8] == 'i' as u8); assert(seq!['e' as u8, 'x' as u8, 'p' as u8, 'o' as u8, 'n' as u8, 'e' as u8, 'n' as u8, 't' as u8, 'i' as u8, 'a' as u8, 'l' as u8][9] == 'a' as u8); assert(seq!['e' as u8, 'x' as u8, 'p' as u8, 'o' as u8, 'n' as u8, 'e' as u8, 'n' as u8, 't' as u8, 'i' as u8, 'a' as u8, 'l' as u8][10] == 'l' as u8);
                assert(cone_kind_of(seq!['e' as u8, 'x' as u8, 'p' as u8, 'o' as u8, 'n' as u8, 'e' as u8, 'n' as u8, 't' as u8, 'i' as u8, 'a' as u8, 'l' as u8]) == Ok::<ConeKind, ConeNameError>(ConeKind::Exponential));
                assert(lowered(seq!['e' as u8, 'x' as u8, 'p' as u8, 'o' as u8, 'n' as u8, 'e' as u8, 'n' as u8, 't' as u8, 'i' as u8, 'a' as u8, 'l' as u8]) =~= seq!['e' as u8, 'x' as u8, 'p' as u8, 'o' as u8, 'n' as u8, 'e' as u8, 'n' as u8, 't' as u8, 'i' as u8, 'a' as u8, 'l' as u8]);
            } else if i == 2 {
                lemma_encoding_ep();
                assert(seq!['e' as u8, 'p' as u8][0] == 'e' as u8); assert(seq!['e' as u8, 'p' as u8][1] == 'p' as u8);
                assert(cone_kind_of(seq!['e' as u8, 'p' as u8]) == Ok::<ConeKind, ConeNameError>(ConeKind::Exponential));
                assert(lowered(seq!['e' as u8, 'p' as u8]) =~= seq!['e' as u8, 'p' as u8]);
            }
        },
        ConeKind::DualExponential => {
            if i == 0 {
                lemma_encoding_dualexp();
                assert(seq!['d' as u8, 'u' as u8, 'a' as u8, 'l' as u8, 'e' as u8, 'x' as u8, 'p' as u8][0] == 'd' as u8); assert(seq!['d' as u8, 'u' as u8, 'a' as u8, 'l' as u8, 'e' as u8, 'x' as u8, 'p' as u8][1] == 'u' as u8); assert(seq!['d' as u8, 'u' as u8, 'a' as u8, 'l' as u8, 'e' as u8, 'x' as u8, 'p' as u8][2] == 'a' as u8); assert(seq!['d' as u8, 'u' as u8, 'a' as u8, 'l' as u8, 'e' as u8, 'x' as u8, 'p' as u8][3] == 'l' as u8); assert(seq!['d' as u8, 'u' as u8, 'a' as u8, 'l' as u8, 'e' as u8, 'x' as u8, 'p' as u8][4] == 'e' as u8); assert(seq!['d' as u8, 'u' as u8, 'a' as u8, 'l' as u8, 'e' as u8, 'x' as u8, 'p' as u8][5] == 'x' as u8); assert(seq!['d' as u8, 'u' as u8, 'a' as u8, 'l' as u8, 'e' as u8, 'x' as u8, 'p' as u8][6] == 'p' as u8);
                assert(cone_kind_of(seq!['d' as u8, 'u' as u8, 'a' as u8, 'l' as u8, 'e' as u8, 'x' as u8, 'p' as u8]) == Ok::<ConeKind, ConeNameError>(ConeKind::DualExponential));
                assert(lowered(seq!['d' as u8, 'u' as u8, 'a' as u8, 'l' as u8, 'e' as u8, 'x' as u8, 'p' as u8]) =~= seq!['d' as u8, 'u' as u8, 'a' as u8, 'l' as u8, 'e' as u8, 'x' as u8, 'p' as u8]);
            } else if i == 1 {
                lemma_encoding_ed();
                assert(seq!['e' as u8, 'd' as u8][0] == 'e' as u8); assert(seq!['e' as u8, 'd' as u8][1] == 'd' as u8);
                assert(cone_kind_of(seq!['e' as u8, 'd' as u8]) == Ok::<ConeKind, ConeNameError>(ConeKind::DualExponential));
                assert(lowered(seq!['e' as u8, 'd' as u8]) =~= seq!['e' as u8, 'd' as u8]);
            }
        },
        ConeKind::Power => {
            if i == 0 {
                lemma_encoding_power();
                assert(seq!['p' as u8, 'o' as u8, 'w' as u8, 'e' as u8, 'r' as u8][0] == 'p' as u8); assert(seq!['p' as u8, 'o' as u8, 'w' as u8, 'e' as u8, 'r' as u8][1] == 'o' as u8); assert(seq!['p' as u8, 'o' as u8, 'w' as u8, 'e' as u8, 'r' as u8][2] == 'w' as u8); assert(seq!['p' as u8, 'o' as u8, 'w' as u8, 'e' as u8, 'r' as u8][3] == 'e' as u8); assert(seq!['p' as u8, 'o' as u8, 'w' as u8, 'e' as u8, 'r' as u8][4] == 'r' as u8);
                assert(cone_kind_of(seq!['p' as u8, 'o' as u8, 'w' as u8, 'e' as u8, 'r' as u8]) == Ok::<ConeKind, ConeNameError>(ConeKind::Power));
                assert(lowered(seq!['p' as u8, 'o' as u8, 'w' as u8, 'e' as u8, 'r' as u8]) =~= seq!['p' as u8, 'o' as u8, 'w' as u8, 'e' as u8, 'r' as u8]);
            } else if i == 1 {
                lemma_encoding_pow();
                assert(seq!['p' as u8, 'o' as u8, 'w' as u8][0] == 'p' as u8); assert(seq!['p' as u8, 'o' as u8, 'w' as u8][1] == 'o' as u8); assert(seq!['p' as u8, 'o' as u8, 'w' as u8][2] == 'w' as u8);
                assert(cone_kind_of(seq!['p' as u8, 'o' as u8, 'w' as u8]) == Ok::<ConeKind, ConeNameError>(ConeKind::Power));
                assert(lowered(seq!['p' as u8, 'o' as u8, 'w' as u8]) =~= seq!['p' as u8, 'o' as u8, 'w' as u8]);
            } else if i == 2 {
                lemma_encoding_p();
                assert(seq!['p' as u8][0] == 'p' as u8);
                assert(cone_kind_of(seq!['p' as u8]) == Ok::<ConeKind, ConeNameError>(ConeKind::Power));
                assert(lowered(seq!['p' as u8]) =~= seq!['p' as u8]);
            }
        },
        ConeKind::DualPower => {
            if i == 0 {
                lemma_encoding_dualpower();
                assert(seq!['d' as u8, 'u' as u8, 'a' as u8, 'l' as u8, 'p' as u8, 'o' as u8, 'w' as u8, 'e' as u8, 'r' as u8][0] == 'd' as u8); assert(seq!['d' as u8, 'u' as u8, 'a' as u8, 'l' as u8, 'p' as u8, 'o' as u8, 'w' as u8, 'e' as u8, 'r' as u8][1] == 'u' as u8); assert(seq!['d' as u8, 'u' as u8, 'a' as u8, 'l' as u8, 'p' as u8, 'o' as u8, 'w' as u8, 'e' as u8, 'r' as u8][2] == 'a' as u8); assert(seq!['d' as u8, 'u' as u8, 'a' as u8, 'l' as u8, 'p' as u8, 'o' as u8, 'w' as u8, 'e' as u8, 'r' as u8][3] == 'l' as u8); assert(seq!['d' as u8, 'u' as u8, 'a' as u8, 'l' as u8, 'p' as u8, 'o' as u8, 'w' as u8, 'e' as u8, 'r' as u8][4] == 'p' as u8); assert(seq!['d' as u8, 'u' as u8, 'a' as u8, 'l' as u8, 'p' as u8, 'o' as u8, 'w' as u8, 'e' as u8, 'r' as u8][5] == 'o' as u8); assert(seq!['d' as u8, 'u' as u8, 'a' as u8, 'l' as u8, 'p' as u8, 'o' as u8, 'w' as u8, 'e' as u8, 'r' as u8][6] == 'w' as u8); assert(seq!['d' as u8, 'u' as u8, 'a' as u8, 'l' as u8, 'p' as u8, 'o' as u8, 'w' as u8, 'e' as u8, 'r' as u8][7] == 'e' as u8); assert(seq!['d' as u8, 'u' as u8, 'a' as u8, 'l' as u8, 'p' as u8, 'o' as u8, 'w' as u8, 'e' as u8, 'r' as u8][8] == 'r' as u8);
                assert(cone_kind_of(seq!['d' as u8, 'u' as u8, 'a' as u8, 'l' as u8, 'p' as u8, 'o' as u8, 'w' as u8, 'e' as u8, 'r' as u8]) == Ok::<ConeKind, ConeNameError>(ConeKind::DualPower));
                assert(lowered(seq!['d' as u8, 'u' as u8, 'a' as u8, 'l' as u8, 'p' as u8, 'o' as u8, 'w' as u8, 'e' as u8, 'r' as u8]) =~= seq!['d' as u8, 'u' as u8, 'a' as u8, 'l' as u8, 'p' as u8, 'o' as u8, 'w' as u8, 'e' as u8, 'r' as u8]);
            }
        },
    }
}

/// A name accepted as kind `k` is one of the aliases of `k`.
proof fn lemma_cone_kind_named(l: Seq<u8>, k: ConeKind)
    requires
        cone_kind_of(l) == Ok::<ConeKind, ConeNameError>(k),
    ensures
        exists|i: int| 0 <= i < cone_aliases(k).len() && l == encode_utf8(#[trigger] cone_aliases(k)[i]),
{
    match k {
        ConeKind::Zero => {
            if l == seq!['z' as u8, 'e' as u8, 'r' as u8, 'o' as u8] {
                lemma_encoding_zero();
                assert(l == encode_utf8(cone_aliases(k)[0]));
            } else if l == seq!['z' as u8] {
                lemma_encoding_z();
                assert(l == encode_utf8(cone_aliases(k)[1]));
            } else {
                lemma_encoding_eq();
                assert(l == encode_utf8(cone_aliases(k)[2]));
            }
        },
        ConeKind::Nonnegative => {
            if l == seq!['n' as u8, 'o' as u8, 'n' as u8, 'n' as u8, 'e' as u8, 'g' as u8, 'a' as u8, 't' as u8, 'i' as u8, 'v' as u8, 'e' as u8] {
                lemma_encoding_nonnegative();
                assert(l == encode_utf8(cone_aliases(k)[0]));
            } else if l == seq!['n' as u8, 'o' as u8, 'n' as u8, 'n' as u8, 'e' as u8, 'g' as u8] {
                lemma_encoding_nonneg();
                assert(l == encode_utf8(cone_aliases(k)[1]));
            } else if l == seq!['l' as u8] {
                lemma_encoding_l();
                assert(l == encode_utf8(cone_aliases(k)[2]));
            } else {
                lemma_encoding_nn();
                assert(l == encode_utf8(cone_aliases(k)[3]));
            }
        },
        ConeKind::SecondOrder => {
            if l == seq!['s' as u8, 'o' as u8, 'c' as u8] {
                lemma_encoding_soc();
                assert(l == encode_utf8(cone_aliases(k)[0]));
            } else if l == seq!['q' as u8] {
                lemma_encoding_q();
                assert(l == encode_utf8(cone_aliases(k)[1]));
            } else {
                lemma_encoding_secondorder();
                assert(l == encode_utf8(cone_aliases(k)[2]));
            }
        },
        ConeKind::Exponential => {
            if l == seq!['e' as u8, 'x' as u8, 'p' as u8] {
                lemma_encoding_exp();
                assert(l == encode_utf8(cone_aliases(k)[0]));
            } else if l == seq!['e' as u8, 'x' as u8, 'p' as u8, 'o' as u8, 'n' as u8, 'e' as u8, 'n' as u8, 't' as u8, 'i' as u8, 'a' as u8, 'l' as u8] {
                lemma_encoding_exponential();
                assert(l == encode_utf8(cone_aliases(k)[1]));
            } else {
                lemma_encoding_ep();
                assert(l == encode_utf8(cone_aliases(k)[2]));
            }
        },
        ConeKind::DualExponential => {
            if l == seq!['d' as u8, 'u' as u8, 'a' as u8, 'l' as u8, 'e' as u8, 'x' as u8, 'p' as u8] {
                lemma_encoding_dualexp();
                assert(l == encode_utf8(cone_aliases(k)[0]));
            } else {
                lemma_encoding_ed();
                assert(l == encode_utf8(cone_aliases(k)[1]));
            }
        },
        ConeKind::Power => {
            if l == seq!['p' as u8, 'o' as u8, 'w' as u8, 'e' as u8, 'r' as u8] {
                lemma_encoding_power();
                assert(l == encode_utf8(cone_aliases(k)[0]));
            } else if l == seq!['p' as u8, 'o' as u8, 'w' as u8] {
                lemma_encoding_pow();
                assert(l == encode_utf8(cone_aliases(k)[1]));
            } else {
                lemma_encoding_p();
                assert(l == encode_utf8(cone_aliases(k)[2]));
            }
        },
        ConeKind::DualPower => {
            if l == seq!['d' as u8, 'u' as u8, 'a' as u8, 'l' as u8, 'p' as u8, 'o' as u8, 'w' as u8, 'e' as u8, 'r' as u8] {
                lemma_encoding_dualpower();
                assert(l == encode_utf8(cone_aliases(k)[0]));
            }
        },
    }
}

/// Both semidefinite names are refused as such.
#[verifier::spinoff_prover]
proof fn lemma_psd_refused(i: int)
    requires
        0 <= i < psd_names().len(),
    ensures
        cone_kind_of(encode_utf8(psd_names()[i])) == Err::<ConeKind, ConeNameError>(ConeNameError::Psd),
{
    lemma_encoding_psd();
    lemma_encoding_sdp();
    if i == 0 {
        assert(psd_names()[0] == "psd"@);
        assert(seq!['p' as u8, 's' as u8, 'd' as u8][0] == 'p' as u8);
        assert(seq!['p' as u8, 's' as u8, 'd' as u8][1] == 's' as u8);
        assert(seq!['p' as u8, 's' as u8, 'd' as u8][2] == 'd' as u8);
        assert(seq!['p' as u8, 'o' as u8, 'w' as u8][1] == 'o' as u8);
        assert(seq!['s' as u8, 'o' as u8, 'c' as u8][0] == 's' as u8);
        assert(seq!['e' as u8, 'x' as u8, 'p' as u8][0] == 'e' as u8);
        assert(seq!['p' as u8].len() == 1);
        assert(cone_kind_of(seq!['p' as u8, 's' as u8, 'd' as u8]) == Err::<ConeKind, ConeNameError>(ConeNameError::Psd));
    } else {
        assert(psd_names()[1] == "sdp"@);
        assert(seq!['s' as u8, 'd' as u8, 'p' as u8][0] == 's' as u8);
        assert(seq!['s' as u8, 'd' as u8, 'p' as u8][1] == 'd' as u8);
        assert(seq!['s' as u8, 'd' as u8, 'p' as u8][2] == 'p' as u8);
        assert(cone_kind_of(seq!['s' as u8, 'd' as u8, 'p' as u8]) == Err::<ConeKind, ConeNameError>(ConeNameError::Psd));
    }
}

/// Every documented alias of a cone kind, in any ASCII case, names that
/// kind; the semidefinite names are refused as such; and a name accepted
/// as a kind is, up to ASCII case, one of that kind's aliases.
pub proof fn lemma_cone_aliases(l: Seq<u8>)
    ensures
        forall|k: ConeKind, i: int|
            0 <= i < cone_aliases(k).len() && l == encode_utf8(#[trigger] cone_aliases(k)[i])
                ==> cone_kind_of(l) == Ok::<ConeKind, ConeNameError>(k),
        forall|k: ConeKind, i: int|
            0 <= i < cone_aliases(k).len() ==> lowered(encode_utf8(#[trigger] cone_aliases(k)[i]))
                == encode_utf8(cone_aliases(k)[i]),
        forall|i: int| 0 <= i < psd_names().len() && l == encode_utf8(#[trigger] psd_names()[i])
            ==> cone_kind_of(l) == Err::<ConeKind, ConeNameError>(ConeNameError::Psd),
        forall|k: ConeKind| cone_kind_of(l) == Ok::<ConeKind, ConeNameError>(k) ==> exists|i: int|
            0 <= i < cone_aliases(k).len() && l == encode_utf8(#[trigger] cone_aliases(k)[i]),
{
    assert forall|k: ConeKind, i: int| 0 <= i < cone_aliases(k).len() implies lowered(
        encode_utf8(#[trigger] cone_aliases(k)[i]),
    ) == encode_utf8(cone_aliases(k)[i]) && cone_kind_of(encode_utf8(cone_aliases(k)[i])) == Ok::<
        ConeKind,
        ConeNameError,
    >(k) by {
        lemma_cone_alias_at(k, i);
    }
    assert forall|i: int| 0 <= i < psd_names().len() && l == encode_utf8(#[trigger] psd_names()[i])
        implies cone_kind_of(l) == Err::<ConeKind, ConeNameError>(ConeNameError::Psd) by {
        lemma_psd_refused(i);
    }
    assert forall|k: ConeKind| cone_kind_of(l) == Ok::<ConeKind, ConeNameError>(k) implies exists|i: int|
        0 <= i < cone_aliases(k).len() && l == encode_utf8(#[trigger] cone_aliases(k)[i]) by {
        lemma_cone_kind_named(l, k);
    }
}

/// Keyword of `k` and nothing else names `k`.
proof fn lemma_setting_keyword_at(key: Seq<u8>, k: SettingKey)
    ensures
        key == encode_utf8(setting_keyword(k)) <==> setting_key_of(key) == Some(k),
{
    match k {
        SettingKey::Rho => {
            lemma_encoding_rho();
            assert(setting_key_of(seq!['r' as u8, 'h' as u8, 'o' as u8]) == Some(SettingKey::Rho));
        },
        SettingKey::Sigma => {
            lemma_encoding_sigma();
            assert(setting_key_of(seq!['s' as u8, 'i' as u8, 'g' as u8, 'm' as u8, 'a' as u8]) == Some(SettingKey::Sigma));
        },
        SettingKey::Alpha => {
            lemma_encoding_alpha();
            assert(setting_key_of(seq!['a' as u8, 'l' as u8, 'p' as u8, 'h' as u8, 'a' as u8]) == Some(SettingKey::Alpha));
        },
        SettingKey::EpsAbs => {
            lemma_encoding_eps_abs();
            assert(setting_key_of(seq!['e' as u8, 'p' as u8, 's' as u8, '_' as u8, 'a' as u8, 'b' as u8, 's' as u8]) == Some(SettingKey::EpsAbs));
        },
        SettingKey::EpsRel => {
            lemma_encoding_eps_rel();
            assert(setting_key_of(seq!['e' as u8, 'p' as u8, 's' as u8, '_' as u8, 'r' as u8, 'e' as u8, 'l' as u8]) == Some(SettingKey::EpsRel));
        },
        SettingKey::MaxIter => {
            lemma_encoding_max_iter();
            assert(setting_key_of(seq!['m' as u8, 'a' as u8, 'x' as u8, '_' as u8, 'i' as u8, 't' as u8, 'e' as u8, 'r' as u8]) == Some(SettingKey::MaxIter));
        },
        SettingKey::Verbose => {
            lemma_encoding_verbose();
            assert(setting_key_of(seq!['v' as u8, 'e' as u8, 'r' as u8, 'b' as u8, 'o' as u8, 's' as u8, 'e' as u8]) == Some(SettingKey::Verbose));
        },
        SettingKey::Scaling => {
            lemma_encoding_scaling();
            assert(setting_key_of(seq!['s' as u8, 'c' as u8, 'a' as u8, 'l' as u8, 'i' as u8, 'n' as u8, 'g' as u8]) == Some(SettingKey::Scaling));
        },
        SettingKey::AdaptiveRho => {
            lemma_encoding_adaptive_rho();
            assert(setting_key_of(seq!['a' as u8, 'd' as u8, 'a' as u8, 'p' as u8, 't' as u8, 'i' as u8, 'v' as u8, 'e' as u8, '_' as u8, 'r' as u8, 'h' as u8, 'o' as u8]) == Some(SettingKey::AdaptiveRho));
        },
        SettingKey::Accelerate => {
            lemma_encoding_accelerate();
            assert(setting_key_of(seq!['a' as u8, 'c' as u8, 'c' as u8, 'e' as u8, 'l' as u8, 'e' as u8, 'r' as u8, 'a' as u8, 't' as u8, 'e' as u8]) == Some(SettingKey::Accelerate));
        },
        SettingKey::TimeLimit => {
            lemma_encoding_time_limit();
            assert(setting_key_of(seq!['t' as u8, 'i' as u8, 'm' as u8, 'e' as u8, '_' as u8, 'l' as u8, 'i' as u8, 'm' as u8, 'i' as u8, 't' as u8]) == Some(SettingKey::TimeLimit));
        },
        SettingKey::CheckTermination => {
            lemma_encoding_check_termination();
            assert(setting_key_of(seq!['c' as u8, 'h' as u8, 'e' as u8, 'c' as u8, 'k' as u8, '_' as u8, 't' as u8, 'e' as u8, 'r' as u8, 'm' as u8, 'i' as u8, 'n' as u8, 'a' as u8, 't' as u8, 'i' as u8, 'o' as u8, 'n' as u8]) == Some(SettingKey::CheckTermination));
        },
        SettingKey::EpsPrimInf => {
            lemma_encoding_eps_prim_inf();
            assert(setting_key_of(seq!['e' as u8, 'p' as u8, 's' as u8, '_' as u8, 'p' as u8, 'r' as u8, 'i' as u8, 'm' as u8, '_' as u8, 'i' as u8, 'n' as u8, 'f' as u8]) == Some(SettingKey::EpsPrimInf));
        },
        SettingKey::EpsDualInf => {
            lemma_encoding_eps_dual_inf();
            assert(setting_key_of(seq!['e' as u8, 'p' as u8, 's' as u8, '_' as u8, 'd' as u8, 'u' as u8, 'a' as u8, 'l' as u8, '_' as u8, 'i' as u8, 'n' as u8, 'f' as u8]) == Some(SettingKey::EpsDualInf));
        },
        SettingKey::UseQuadObj => {
            lemma_encoding_use_quad_obj();
            assert(setting_key_of(seq!['u' as u8, 's' as u8, 'e' as u8, '_' as u8, 'q' as u8, 'u' as u8, 'a' as u8, 'd' as u8, '_' as u8, 'o' as u8, 'b' as u8, 'j' as u8]) == Some(SettingKey::UseQuadObj));
        },
    }
}

/// Each setting is reached by its own keyword, and only by it.
pub proof fn lemma_setting_keywords(key: Seq<u8>)
    ensures
        forall|k: SettingKey| key == encode_utf8(#[trigger] setting_keyword(k)) <==> setting_key_of(key) == Some(k),
{
    assert forall|k: SettingKey| key == encode_utf8(#[trigger] setting_keyword(k)) <==> setting_key_of(key) == Some(k) by {
        lemma_setting_keyword_at(key, k);
    }
}

} // verus!
