//! A fully collateralized call option, expressed as a generic bet: a
//! payout schedule mapping each settlement price to a transaction template
//! splitting the collateral between the two parties.
use vstd::prelude::*;

use crate::clause::Clause;
use crate::clause::SpecClause;
use crate::clause::clone_bytes;
use crate::compiler::CompileError;
use crate::template::Output;
use crate::template::SpecTemplate;
use crate::template::SpecOutput;
use crate::template::Template;

verus! {

/// Price precision: prices and strikes are quoted per this many base units.
pub const ONE_UNIT: u64 = 10_000;

/// A call option: a payout schedule is derived from it, one outcome per
/// price step between the strike and the maximum price. The party keys,
/// payment scripts and oracle stand in for what the operator and user
/// interfaces hand the contract.
pub struct CallSpec {
    /// The number of units under option.
    pub amount: u64,
    /// The strike, with `ONE_UNIT` precision.
    pub strike_x_one_unit: u64,
    /// The maximum settlement price, with `ONE_UNIT` precision; the
    /// contract is fully collateralized up to it.
    pub max_price_x_one_unit: u64,
    /// The operator's cooperation key clause.
    pub operator_key: Clause,
    /// The user's cooperation key clause.
    pub user_key: Clause,
    /// Where the operator receives payments.
    pub operator_script: Vec<u8>,
    /// Where the user receives payments.
    pub user_script: Vec<u8>,
    /// The oracle clause settling the bet.
    pub oracle: Clause,
    /// The symbol the option is written on.
    pub symbol: String,
    /// Whether the call is being bought or sold.
    pub buying: bool,
}

/// Arguments for creating a generic bet: the collateral, the payout
/// schedule, the oracle, and the cooperation clause.
pub struct GenericBetArguments {
    /// The collateral the contract must be funded with, in satoshis.
    pub amount: u64,
    /// The payout schedule: settlement price to template.
    pub outcomes: Vec<(i64, Template)>,
    /// The oracle clause settling the bet.
    pub oracle: Clause,
    /// The clause letting both parties cooperatively close.
    pub cooperate: Clause,
    /// The symbol the bet is written on.
    pub symbol: String,
}

/// A generic bet, built from its arguments.
pub struct GenericBet {
    /// The arguments the bet was built from.
    pub args: GenericBetArguments,
}

/// The payout template for one settlement price: the profit side of the
/// collateral to the user, the refund side to the operator, swapped when
/// the call is being bought.
pub open spec fn bet_template(
    max_amount: u64,
    strike: u64,
    price: int,
    buying: bool,
    user_script: Seq<u8>,
    operator_script: Seq<u8>,
) -> SpecTemplate {
    let profit = price - strike;
    let refund = max_amount - profit;
    let user_amt = if buying {
        refund
    } else {
        profit
    };
    let op_amt = if buying {
        profit
    } else {
        refund
    };
    SpecTemplate {
        outputs: seq![
            SpecOutput { amount: user_amt as u64, script: user_script },
            SpecOutput { amount: op_amt as u64, script: operator_script },
        ],
        max: max_amount,
    }
}

/// Everything the bet arguments derived from a call option satisfy: the
/// collateral, the cooperation clause, the oracle and symbol carried over,
/// and the payout schedule, one outcome per `ONE_UNIT` price step from the
/// strike up to the maximum price.
pub open spec fn spec_bet_arguments(v: CallSpec, b: GenericBetArguments) -> bool {
    let strike = v.strike_x_one_unit;
    let maxp = v.max_price_x_one_unit;
    let max_amount = v.amount * maxp;
    let n = b.outcomes@.len() as int;
    &&& b.amount == max_amount
    &&& b.cooperate@ == SpecClause::And(Box::new(v.operator_key@), Box::new(v.user_key@))
    &&& b.oracle@ == v.oracle@
    &&& b.symbol@ == v.symbol@
    &&& (strike > maxp ==> n == 0)
    &&& (strike <= maxp ==> n >= 1 && strike + ONE_UNIT * (n - 1) <= maxp && maxp < strike
        + ONE_UNIT * n)
    &&& forall|i: int|
        0 <= i < n ==> {
            let price = strike + ONE_UNIT * i;
            &&& (#[trigger] b.outcomes@[i]).0 == price
            &&& b.outcomes@[i].1@ == bet_template(
                max_amount as u64,
                strike,
                price,
                v.buying,
                v.user_script@,
                v.operator_script@,
            )
        }
}

impl GenericBetArguments {
    /// Build the bet arguments of a call option: one outcome per `ONE_UNIT`
    /// price step from the strike up to the maximum price, each committing
    /// the full collateral, with the cooperation clause requiring both
    /// parties.
    #[verifier::loop_isolation(false)]
    pub fn try_from(v: CallSpec) -> (r: Result<GenericBetArguments, CompileError>)
        requires
            v.strike_x_one_unit <= v.max_price_x_one_unit ==> v.amount >= 1,
            v.amount * v.max_price_x_one_unit <= u64::MAX,
            v.max_price_x_one_unit <= 0x7fff_ffff_ffff_ffff,
        ensures
            r matches Result::Ok(b) && spec_bet_arguments(v, b),
    {
        let strike = v.strike_x_one_unit;
        let maxp = v.max_price_x_one_unit;
        let max_amount_bitcoin = v.amount * maxp;
        let mut outcomes: Vec<(i64, Template)> = Vec::new();
        let mut price = strike;
        while price <= maxp
            invariant
                strike <= price,
                price == strike + ONE_UNIT * outcomes@.len(),
                outcomes@.len() > 0 ==> strike + ONE_UNIT * (outcomes@.len() - 1) <= maxp,
                forall|i: int|
                    0 <= i < outcomes@.len() ==> {
                        let p = strike + ONE_UNIT * i;
                        &&& (#[trigger] outcomes@[i]).0 == p
                        &&& outcomes@[i].1@ == bet_template(
                            max_amount_bitcoin as u64,
                            strike,
                            p,
                            v.buying,
                            v.user_script@,
                            v.operator_script@,
                        )
                    },
            decreases maxp + ONE_UNIT - price,
        {
            proof {
                assert(v.amount * maxp >= maxp) by (nonlinear_arith)
                    requires
                        v.amount >= 1,
                        maxp >= 0,
                ;
            }
            let mut profit = price - strike;
            let mut refund = max_amount_bitcoin - profit;
            if v.buying {
                let tmp = profit;
                profit = refund;
                refund = tmp;
            }
            let mut outputs: Vec<Output> = Vec::new();
            outputs.push(Output { amount: profit, script: clone_bytes(&v.user_script) });
            outputs.push(Output { amount: refund, script: clone_bytes(&v.operator_script) });
            let t = Template { outputs, max: max_amount_bitcoin };
            let ghost prev = outcomes@;
            outcomes.push((price as i64, t));
            proof {
                assert(crate::template::view_outputs(outcomes@.last().1.outputs@)
                    =~= bet_template(
                    max_amount_bitcoin as u64,
                    strike,
                    price as int,
                    v.buying,
                    v.user_script@,
                    v.operator_script@,
                ).outputs);
            }
            price = price + ONE_UNIT;
        }
        Ok(
            GenericBetArguments {
                amount: max_amount_bitcoin,
                outcomes,
                oracle: v.oracle,
                cooperate: Clause::And(Box::new(v.operator_key), Box::new(v.user_key)),
                symbol: v.symbol,
            },
        )
    }
}

impl GenericBet {
    /// Build a generic bet from a call option; the bet's arguments are
    /// exactly those `GenericBetArguments::try_from` derives.
    pub fn try_from(v: CallSpec) -> (r: Result<GenericBet, CompileError>)
        requires
            v.strike_x_one_unit <= v.max_price_x_one_unit ==> v.amount >= 1,
            v.amount * v.max_price_x_one_unit <= u64::MAX,
            v.max_price_x_one_unit <= 0x7fff_ffff_ffff_ffff,
        ensures
            r matches Result::Ok(b) && spec_bet_arguments(v, b.args),
    {
        match GenericBetArguments::try_from(v) {
            Result::Ok(args) => Ok(GenericBet { args }),
            Result::Err(e) => Err(e),
        }
    }
}

} // verus!
