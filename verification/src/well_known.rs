//! Identifiers that mean the same on every system.
use crate::const_sid::ConstSid;
use crate::sid::SidValue;
use crate::sid_identifier_authority::SidIdentifierAuthority;
use vstd::prelude::*;

verus! {

/// The identifier of revision 1 under the authority whose last byte is
/// `authority`, with the given sub-authorities.
pub open spec fn well_known(authority: u8, sub_authority: Seq<u32>) -> SidValue {
    SidValue {
        revision: 1,
        identifier_authority: seq![0u8, 0, 0, 0, 0, authority],
        sub_authority,
    }
}

/// Nobody, `S-1-0-0`.
pub fn null() -> (sid: ConstSid<1>)
    ensures
        sid@ == well_known(0, seq![0u32]),
{
    let sub_authority: [u32; 1] = [0];
    assert(sub_authority@ =~= seq![0u32]);
    ConstSid::new(SidIdentifierAuthority::null_authority(), sub_authority)
}

/// Everyone, `S-1-1-0`.
pub fn world() -> (sid: ConstSid<1>)
    ensures
        sid@ == well_known(1, seq![0u32]),
{
    let sub_authority: [u32; 1] = [0];
    assert(sub_authority@ =~= seq![0u32]);
    ConstSid::new(SidIdentifierAuthority::security_world_authority(), sub_authority)
}

/// Users logged on locally, `S-1-2-0`.
pub fn local() -> (sid: ConstSid<1>)
    ensures
        sid@ == well_known(2, seq![0u32]),
{
    let sub_authority: [u32; 1] = [0];
    assert(sub_authority@ =~= seq![0u32]);
    ConstSid::new(SidIdentifierAuthority::security_local_authority(), sub_authority)
}

/// The owner of a new object, `S-1-3-0`.
pub fn creator_owner() -> (sid: ConstSid<1>)
    ensures
        sid@ == well_known(3, seq![0u32]),
{
    let sub_authority: [u32; 1] = [0];
    assert(sub_authority@ =~= seq![0u32]);
    ConstSid::new(SidIdentifierAuthority::security_creator_authority(), sub_authority)
}

/// The primary group of the owner of a new object, `S-1-3-1`.
pub fn creator_group() -> (sid: ConstSid<1>)
    ensures
        sid@ == well_known(3, seq![1u32]),
{
    let sub_authority: [u32; 1] = [1];
    assert(sub_authority@ =~= seq![1u32]);
    ConstSid::new(SidIdentifierAuthority::security_creator_authority(), sub_authority)
}

/// The local system account, `S-1-5-18`.
pub fn local_system() -> (sid: ConstSid<1>)
    ensures
        sid@ == well_known(5, seq![18u32]),
{
    let sub_authority: [u32; 1] = [18];
    assert(sub_authority@ =~= seq![18u32]);
    ConstSid::new(SidIdentifierAuthority::nt_authority(), sub_authority)
}

/// The local service account, `S-1-5-19`.
pub fn local_service() -> (sid: ConstSid<1>)
    ensures
        sid@ == well_known(5, seq![19u32]),
{
    let sub_authority: [u32; 1] = [19];
    assert(sub_authority@ =~= seq![19u32]);
    ConstSid::new(SidIdentifierAuthority::nt_authority(), sub_authority)
}

/// The network service account, `S-1-5-20`.
pub fn network_service() -> (sid: ConstSid<1>)
    ensures
        sid@ == well_known(5, seq![20u32]),
{
    let sub_authority: [u32; 1] = [20];
    assert(sub_authority@ =~= seq![20u32]);
    ConstSid::new(SidIdentifierAuthority::nt_authority(), sub_authority)
}

/// The built-in administrators, `S-1-5-32-544`.
pub fn builtin_administrators() -> (sid: ConstSid<2>)
    ensures
        sid@ == well_known(5, seq![32u32, 544]),
{
    let sub_authority: [u32; 2] = [32, 544];
    assert(sub_authority@ =~= seq![32u32, 544]);
    ConstSid::new(SidIdentifierAuthority::nt_authority(), sub_authority)
}

/// The built-in users, `S-1-5-32-545`.
pub fn builtin_users() -> (sid: ConstSid<2>)
    ensures
        sid@ == well_known(5, seq![32u32, 545]),
{
    let sub_authority: [u32; 2] = [32, 545];
    assert(sub_authority@ =~= seq![32u32, 545]);
    ConstSid::new(SidIdentifierAuthority::nt_authority(), sub_authority)
}

/// The built-in guests, `S-1-5-32-546`.
pub fn builtin_guests() -> (sid: ConstSid<2>)
    ensures
        sid@ == well_known(5, seq![32u32, 546]),
{
    let sub_authority: [u32; 2] = [32, 546];
    assert(sub_authority@ =~= seq![32u32, 546]);
    ConstSid::new(SidIdentifierAuthority::nt_authority(), sub_authority)
}

/// The built-in power users, `S-1-5-32-547`.
pub fn builtin_power_users() -> (sid: ConstSid<2>)
    ensures
        sid@ == well_known(5, seq![32u32, 547]),
{
    let sub_authority: [u32; 2] = [32, 547];
    assert(sub_authority@ =~= seq![32u32, 547]);
    ConstSid::new(SidIdentifierAuthority::nt_authority(), sub_authority)
}

} // verus!
