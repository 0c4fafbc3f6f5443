use vstd::prelude::*;

verus! {

/// One argument of an instruction, as far as this module reads it: a 32-bit
/// integer, an account, or any other host value, carried as its raw bits.
pub enum Argument {
    Int(i32),
    Account(Vec<u8>),
    Raw(u64),
}

/// One call in a proposal's batch: the module to call, the function selector
/// and the arguments, in order.
pub struct HiddenInstruction {
    pub contract_id: Vec<u8>,
    pub function_name: Vec<u8>,
    pub arguments: Vec<Argument>,
}

/// A proposal as submitted: its vote total (must be zero), its deadline and
/// the instructions that run, in order, once it passes.
pub struct ClassifiedProposal {
    pub total_votes: i32,
    pub deadline: u64,
    pub instructions: Vec<HiddenInstruction>,
}

/// The record that `voter` has voted on proposal `prop_id`.
pub struct SecretVote {
    pub voter: Vec<u8>,
    pub prop_id: u32,
}

/// The selector of the privileged mint, `transfer_hidden_assets`, as bytes.
pub open spec fn mint_selector() -> Seq<u8> {
    seq![
        116u8, 114u8, 97u8, 110u8, 115u8, 102u8, 101u8, 114u8, 95u8, 104u8, 105u8,
        100u8, 100u8, 101u8, 110u8, 95u8, 97u8, 115u8, 115u8, 101u8, 116u8, 115u8,
    ]
}

pub fn mint_selector_bytes() -> (r: Vec<u8>)
    ensures
        r@ == mint_selector(),
{
    let r = vec![
        116u8, 114u8, 97u8, 110u8, 115u8, 102u8, 101u8, 114u8, 95u8, 104u8, 105u8,
        100u8, 100u8, 101u8, 110u8, 95u8, 97u8, 115u8, 115u8, 101u8, 116u8, 115u8,
    ];
    assert(r@ =~= mint_selector());
    r
}

/// Whether an instruction is the privileged mint addressed to this module.
pub open spec fn is_self_mint(ins: HiddenInstruction, own: Seq<u8>) -> bool {
    ins.contract_id@ == own && ins.function_name@ == mint_selector()
}

/// The (amount, recipient) that a mint's argument list holds in its first two
/// places, or `None` where they are not an integer and an account.
pub open spec fn decode_mint(args: Seq<Argument>) -> Option<(int, Seq<u8>)> {
    if args.len() >= 2 {
        match (args[0], args[1]) {
            (Argument::Int(a), Argument::Account(to)) => Some((a as int, to@)),
            _ => None,
        }
    } else {
        None
    }
}

pub fn same_bytes(a: &Vec<u8>, b: &Vec<u8>) -> (r: bool)
    ensures
        r == (a@ == b@),
{
    let r = *a == *b;
    proof {
        if r {
            assert(a@ =~= b@);
        }
    }
    r
}

/// Whether `ins` is the privileged mint addressed to the module `own`.
pub fn check_self_mint(ins: &HiddenInstruction, own: &Vec<u8>) -> (r: bool)
    ensures
        r == is_self_mint(*ins, own@),
{
    let selector = mint_selector_bytes();
    same_bytes(&ins.contract_id, own) && same_bytes(&ins.function_name, &selector)
}

/// Reads the amount and the recipient of a mint from its arguments.
pub fn decode_mint_args(args: &Vec<Argument>) -> (r: Option<(i32, Vec<u8>)>)
    ensures
        match r {
            Some((a, to)) => decode_mint(args@) == Some((a as int, to@)),
            None => decode_mint(args@) is None,
        },
{
    if args.len() < 2 {
        return None;
    }
    match (&args[0], &args[1]) {
        (Argument::Int(a), Argument::Account(to)) => {
            let recipient = to.clone();
            assert(recipient@ =~= to@);
            Some((*a, recipient))
        },
        _ => None,
    }
}

} // verus!
