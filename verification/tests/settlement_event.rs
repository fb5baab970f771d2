use iln::host::{Address, LedgerInfo};
use iln::invoice_liquidity::env::HostCall;
use iln::invoice_liquidity::events::{Event, InvoicePaid};
use iln::invoice_liquidity::{Env, InvoiceLiquidityContract, InvoiceStatus};

fn address(n: u128) -> Address {
    Address { contract: false, hi: 0, lo: n }
}

#[test]
fn emits_invoice_paid_event_with_full_settlement_details() {
    let contract = Address { contract: true, hi: 0, lo: 1 };
    let token = Address { contract: true, hi: 0, lo: 2 };
    let (admin, freelancer, payer, lp) = (address(1), address(2), address(3), address(4));
    let mut env = Env::new(contract, LedgerInfo { timestamp: 0, sequence: 0 });
    InvoiceLiquidityContract::initialize(&mut env, admin, token, token).unwrap();

    let due_date = env.ledger.timestamp + (7 * 24 * 60 * 60);
    let invoice_id = InvoiceLiquidityContract::submit_invoice(
        &mut env, freelancer, payer, 1_000_000, due_date, 1000, token,
    )
    .unwrap();
    InvoiceLiquidityContract::fund_invoice(&mut env, lp, invoice_id, 1_000_000).unwrap();
    InvoiceLiquidityContract::mark_paid(&mut env, invoice_id, 1_000_000).unwrap();

    let amount_paid: i128 = 1_000_000;
    // No protocol fee by default.
    let lp_payout: i128 = 1_000_000;
    // Payout less contribution.
    let lp_earned: i128 = 0;
    let expected_event = InvoicePaid {
        invoice_id,
        payer,
        lp,
        freelancer,
        token,
        amount_paid,
        lp_earned,
        lp_payout,
        settlement_timestamp: env.ledger.timestamp,
        paid_on_time: true,
        status: InvoiceStatus::Paid,
    };
    assert_eq!(env.calls.last(), Some(&HostCall::Publish(Event::InvoicePaid(expected_event))));
}
