use vstd::prelude::*;

verus! {

/// A 32-byte account identity: a player, a dealer, a token mint or a program.
#[derive(Clone, Copy, Debug)]
pub struct Pubkey {
    pub bytes: [u8; 32],
}

impl Pubkey {
    pub fn new(bytes: [u8; 32]) -> (r: Pubkey)
        ensures
            r.bytes == bytes,
    {
        Pubkey { bytes }
    }
}

impl PartialEq for Pubkey {
    fn eq(&self, o: &Pubkey) -> (r: bool)
        ensures
            r == (*self == *o),
    {
        let mut i: usize = 0;
        while i < 32
            invariant
                i <= 32,
                self.bytes@.len() == 32,
                o.bytes@.len() == 32,
                forall|j: int| 0 <= j < i ==> self.bytes@[j] == o.bytes@[j],
            decreases 32 - i,
        {
            if self.bytes[i] != o.bytes[i] {
                return false;
            }
            i = i + 1;
        }
        proof {
            assert(self.bytes =~= o.bytes);
        }
        true
    }
}

impl vstd::std_specs::cmp::PartialEqSpecImpl for Pubkey {
    open spec fn obeys_eq_spec() -> bool {
        true
    }

    open spec fn eq_spec(&self, o: &Pubkey) -> bool {
        *self == *o
    }
}

impl Eq for Pubkey {
}

/// Mint of the stable coin that backs a table's collateral.
pub open spec fn spec_usdc_mint() -> Pubkey {
    Pubkey { bytes: [187, 246, 213, 79, 59, 230, 17, 194, 246, 236, 88, 0, 4, 46, 140, 208, 184, 195, 7, 35, 196, 47, 94, 81, 166, 83, 120, 159, 13, 37, 95, 13] }
}

pub fn usdc_mint() -> (r: Pubkey)
    ensures
        r == spec_usdc_mint(),
{
    Pubkey { bytes: [187, 246, 213, 79, 59, 230, 17, 194, 246, 236, 88, 0, 4, 46, 140, 208, 184, 195, 7, 35, 196, 47, 94, 81, 166, 83, 120, 159, 13, 37, 95, 13] }
}

/// The one identity allowed to set the trusted backend.
pub open spec fn spec_config_admin() -> Pubkey {
    Pubkey { bytes: [231, 148, 105, 210, 192, 178, 200, 220, 10, 87, 119, 228, 0, 148, 218, 72, 73, 249, 213, 110, 132, 158, 72, 248, 142, 192, 116, 255, 131, 154, 30, 200] }
}

pub fn config_admin() -> (r: Pubkey)
    ensures
        r == spec_config_admin(),
{
    Pubkey { bytes: [231, 148, 105, 210, 192, 178, 200, 220, 10, 87, 119, 228, 0, 148, 218, 72, 73, 249, 213, 110, 132, 158, 72, 248, 142, 192, 116, 255, 131, 154, 30, 200] }
}

/// Receiver of the fee on profit withdrawals.
pub open spec fn spec_owner_fee_recipient() -> Pubkey {
    Pubkey { bytes: [181, 157, 133, 154, 126, 206, 191, 133, 201, 65, 90, 247, 26, 160, 74, 211, 53, 201, 217, 124, 59, 143, 243, 179, 154, 139, 97, 15, 1, 102, 251, 28] }
}

pub fn owner_fee_recipient() -> (r: Pubkey)
    ensures
        r == spec_owner_fee_recipient(),
{
    Pubkey { bytes: [181, 157, 133, 154, 126, 206, 191, 133, 201, 65, 90, 247, 26, 160, 74, 211, 53, 201, 217, 124, 59, 143, 243, 179, 154, 139, 97, 15, 1, 102, 251, 28] }
}

} // verus!
