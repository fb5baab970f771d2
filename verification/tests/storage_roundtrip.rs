use iln::host::{Address, Hash32, LedgerInfo};
use iln::invoice_liquidity::invoice::{
    get_appeal, get_dispute, load_invoice, save_appeal, save_dispute, save_invoice, DisputeRecord,
};
use iln::invoice_liquidity::{AppealRecord, Env, Invoice, InvoiceStatus};

fn address(n: u128) -> Address {
    Address { contract: false, hi: 0, lo: n }
}

fn hash(byte: u8) -> Hash32 {
    let word = u128::from_be_bytes([byte; 16]);
    Hash32 { hi: word, lo: word }
}

fn fresh() -> Env {
    let contract = Address { contract: true, hi: 0, lo: 1 };
    Env::new(contract, LedgerInfo { timestamp: 1_700_000_000, sequence: 100 })
}

#[test]
fn test_invoice_storage_roundtrip_u32_timestamps() {
    let mut env = fresh();
    let invoice = Invoice {
        id: 42,
        freelancer: address(1),
        payer: address(2),
        token: address(3),
        amount: 1_000_000_000,
        due_date: 1_700_000_000u64.try_into().unwrap(),
        discount_rate: 300,
        status: InvoiceStatus::Pending,
        funder: Some(address(4)),
        funded_at: Some(1_700_000_100u64.try_into().unwrap()),
        amount_funded: 500_000_000,
        amount_paid: 0,
        submitter_reputation: 55,
    };
    save_invoice(&mut env, &invoice);
    let loaded = load_invoice(&env, invoice.id);
    assert_eq!(loaded, invoice);
}

#[test]
fn test_appeal_and_dispute_record_storage_roundtrip() {
    let mut env = fresh();
    let invoice_id = 99;
    let appeal = AppealRecord {
        evidence_hash: hash(0xAA),
        appealed_at: 1_700_000_500u64.try_into().unwrap(),
        pre_default_score: 72,
    };
    save_appeal(&mut env, invoice_id, &appeal);
    assert_eq!(get_appeal(&env, invoice_id).unwrap(), appeal);

    let dispute = DisputeRecord { reason_hash: hash(0xBB), disputed_at: 12345u32 };
    save_dispute(&mut env, invoice_id, &dispute);
    assert_eq!(get_dispute(&env, invoice_id).unwrap(), dispute);
}
