//! The contract: set-up, administration and views.

use crate::host::{Address, Hash32};
use crate::invoice_liquidity::access::require_admin;
use crate::invoice_liquidity::config;
use crate::invoice_liquidity::config::{
    config_refused, config_updated, emit_parameter, parameter_event, config_refusal, Config,
};
use crate::invoice_liquidity::env::{Env, EnvView, HostCall, Instance, PersistentView};
use crate::invoice_liquidity::errors::ContractError;
use crate::invoice_liquidity::events::{
    AdminChanged, ContractPaused, ContractUnpaused, ContractUpgraded, Event, ParamName, TokenAdded,
    TokenRemoved,
};
use crate::invoice_liquidity::invoice;
use crate::invoice_liquidity::invoice::{
    get_lp_invoices, get_lp_score, get_min_payer_reputation, get_payer_score,
    get_submitter_invoices, get_token_list, invoice_exists, load_invoice, set_paused,
    ContractStats, Invoice, ReputationProfile,
};
use crate::invoice_liquidity::model::{normalized_volume, or_default, oracle_answers};
use crate::invoice_liquidity::storage;
use crate::list::{holds, take_out, without};
use vstd::prelude::*;

verus! {

/// Seconds after the due date within which a default can be appealed: 30 days.
pub const APPEAL_WINDOW_SECONDS: u64 = 2_592_000;

/// Shortest time to the due date of a new invoice: 24 hours.
pub const MIN_INVOICE_DURATION: u64 = 86_400;

/// Longest time to the due date of a new invoice: 365 days.
pub const MAX_INVOICE_DURATION: u64 = 31_536_000;

/// Decimal places of XLM: 1 XLM = 10,000,000 stroops.
pub const XLM_DECIMALS: u32 = 7;

/// Decimal places of USDC.
pub const USDC_DECIMALS: u32 = 6;

/// Invoice financing: freelancers sell invoices at a discount to liquidity
/// providers, who are repaid when the payer settles.
pub struct InvoiceLiquidityContract;

/// The parameters of a new contract.
pub open spec fn initial_config(xlm_token: Address) -> Config {
    Config {
        high_rep_threshold: 70,
        bonus_bps: 100,
        min_discount_rate_bps: 100,
        decay_rate_bps: 50,
        decay_period_ledgers: 10000,
        dispute_timeout_ledgers: 10000,
        xlm_sac_address: xlm_token,
        price_oracle: None,
    }
}

/// The invocation after the contract was set up with two approved tokens, no fee
/// and a discount cap of one half.
pub open spec fn initialized(
    s: EnvView,
    admin: Address,
    token: Address,
    xlm_token: Address,
) -> EnvView {
    s.with_instance(
        Instance {
            admin: Some(admin),
            fee_rate: Some(0),
            max_discount_rate: Some(5000),
            config: Some(initial_config(xlm_token)),
            ..s.instance
        },
    ).with_persistent(
        PersistentView {
            approved_tokens: s.persistent.approved_tokens.insert(token, true).insert(
                xlm_token,
                true,
            ),
            token_list: Some(seq![token, xlm_token]),
            ..s.persistent
        },
    )
}

/// The invocation after `token` was put on the allowlist.
pub open spec fn token_approved(s: EnvView, token: Address) -> EnvView {
    s.with_persistent(
        PersistentView {
            approved_tokens: s.persistent.approved_tokens.insert(token, true),
            token_list: if s.token_list().contains(token) {
                s.persistent.token_list
            } else {
                Some(s.token_list().push(token))
            },
            ..s.persistent
        },
    )
}

/// The invocation after `token` was taken off the allowlist.
pub open spec fn token_disapproved(s: EnvView, token: Address) -> EnvView {
    s.with_persistent(
        PersistentView {
            approved_tokens: s.persistent.approved_tokens.insert(token, false),
            token_list: Some(without(s.token_list(), token)),
            ..s.persistent
        },
    )
}

/// A page holds at most this many entries.
pub open spec fn page_limit(page_size: int) -> int {
    if page_size < 50 {
        page_size
    } else {
        50
    }
}

/// One page of a list, counted from page zero.
pub open spec fn page_ids(ids: Seq<u64>, page: int, page_size: int) -> Seq<u64> {
    let size = page_limit(page_size);
    let start = page * size;
    if start >= ids.len() {
        Seq::empty()
    } else if start + size <= ids.len() {
        ids.subrange(start, start + size)
    } else {
        ids.subrange(start, ids.len() as int)
    }
}

/// The stored invoices with the given numbers.
pub open spec fn invoices_of(s: EnvView, ids: Seq<u64>) -> Seq<Invoice> {
    Seq::new(ids.len(), |i: int| s.invoice(ids[i]))
}

/// Whether a page can be located with 32-bit positions, and every invoice on it
/// exists.
pub open spec fn page_readable(s: EnvView, ids: Seq<u64>, page: int, page_size: int) -> bool {
    let size = page_limit(page_size);
    &&& ids.len() <= u32::MAX
    &&& page * size <= u32::MAX
    &&& page * size < ids.len() ==> page * size + size <= u32::MAX
    &&& forall|i: int|
        0 <= i < page_ids(ids, page, page_size).len() ==> s.has_invoice(
            #[trigger] page_ids(ids, page, page_size)[i],
        )
}

/// Every entry of a list is on the page that its position says, at the place that
/// its position says: the pages together are the list, in order.
pub proof fn law_pages_make_up_the_list(ids: Seq<u64>, page_size: int, i: int)
    requires
        page_size > 0,
        0 <= i < ids.len(),
    ensures
        ({
            let size = page_limit(page_size);
            let page = page_ids(ids, i / size, page_size);
            i % size < page.len() && page[i % size] == ids[i]
        }),
{
    let size = page_limit(page_size);
    assert(i == size * (i / size) + i % size && 0 <= i % size < size) by (nonlinear_arith)
        requires
            size > 0,
    ;
    assert((i / size) * size == size * (i / size)) by (nonlinear_arith);
}

/// A page never holds more than fifty invoices, nor more than were asked for.
pub proof fn law_pages_are_bounded(ids: Seq<u64>, page: int, page_size: int)
    requires
        page >= 0,
        page_size >= 0,
    ensures
        page_ids(ids, page, page_size).len() <= 50,
        page_ids(ids, page, page_size).len() <= page_size,
{
    assert(page * page_limit(page_size) >= 0) by (nonlinear_arith)
        requires
            page >= 0,
            page_limit(page_size) >= 0,
    ;
}

/// The discount rate suggested for a payer of the given score: 5% for the best,
/// five basis points more for every point that is missing.
pub open spec fn suggested_rate(score: int) -> int {
    500 + 5 * (100 - (if score > 100 {
        100
    } else {
        score
    }))
}

/// The suggested rate lies between 5% and 10%, and falls as the score rises.
pub proof fn law_suggested_rate_falls_with_score(low: int, high: int)
    requires
        0 <= low <= high,
    ensures
        500 <= suggested_rate(high) <= suggested_rate(low) <= 1000,
{
}

impl InvoiceLiquidityContract {
    /// Sets the contract up. Access: anyone, while there is no invoice counter in
    /// instance storage.
    pub fn initialize(env: &mut Env, admin: Address, token: Address, xlm_token: Address) -> (r:
        Result<(), ContractError>)
        ensures
            if old(env)@.instance.invoice_count is Some {
                r == Err::<(), ContractError>(ContractError::AlreadyInitialized) && final(env)@
                    == old(env)@
            } else {
                r == Ok::<(), ContractError>(()) && final(env)@ == initialized(
                    old(env)@,
                    admin,
                    token,
                    xlm_token,
                )
            },
    {
        if env.instance.invoice_count.is_some() {
            return Err(ContractError::AlreadyInitialized);
        }
        env.instance.admin = Some(admin);
        env.instance.fee_rate = Some(0);
        env.instance.max_discount_rate = Some(5000);
        let initial_config: Config = Config {
            high_rep_threshold: 70,
            bonus_bps: 100,
            min_discount_rate_bps: 100,
            decay_rate_bps: 50,
            decay_period_ledgers: 10000,
            dispute_timeout_ledgers: 10000,
            xlm_sac_address: xlm_token,
            price_oracle: None,
        };
        storage::set_config(env, &initial_config);
        env.persistent.approved_tokens.set(token, true);
        env.persistent.approved_tokens.set(xlm_token, true);
        let mut list: Vec<Address> = Vec::new();
        list.push(token);
        list.push(xlm_token);
        assert(list@ =~= seq![token, xlm_token]);
        env.persistent.token_list = Some(list);
        Ok(())
    }

    /// Access: admin only.
    pub fn set_admin(env: &mut Env, new_admin: Address) -> (r: Result<(), ContractError>)
        ensures
            match old(env)@.instance.admin {
                None => r == Err::<(), ContractError>(ContractError::Unauthorized) && final(env)@
                    == old(env)@,
                Some(admin) => r == Ok::<(), ContractError>(()) && final(env)@
                    == old(env)@.authorized(admin).with_instance(
                    Instance { admin: Some(new_admin), ..old(env)@.instance },
                ).published(
                    Event::AdminChanged(
                        AdminChanged {
                            old_admin: admin,
                            new_admin,
                            timestamp: old(env)@.ledger.timestamp,
                        },
                    ),
                ),
            },
    {
        require_admin(env)?;
        let old_admin: Address = env.instance.admin.unwrap();
        env.instance.admin = Some(new_admin);
        let timestamp: u64 = env.ledger.timestamp;
        env.publish_event(Event::AdminChanged(AdminChanged { old_admin, new_admin, timestamp }));
        Ok(())
    }

    /// Sets the share of every settlement, in basis points, that goes to the
    /// admin. Access: admin only.
    pub fn update_fee_rate(env: &mut Env, rate: u32) -> (r: Result<(), ContractError>)
        ensures
            match old(env)@.instance.admin {
                None => r == Err::<(), ContractError>(ContractError::Unauthorized) && final(env)@
                    == old(env)@,
                Some(admin) => r == Ok::<(), ContractError>(()) && final(env)@
                    == old(env)@.authorized(admin).with_instance(
                    Instance { fee_rate: Some(rate), ..old(env)@.instance },
                ).published(
                    parameter_event(
                        ParamName::ProtocolFeeRateBps,
                        or_default(old(env)@.instance.fee_rate, 0) as int,
                        rate as int,
                        admin,
                    ),
                ),
            },
    {
        require_admin(env)?;
        let old_rate: u32 = env.instance.fee_rate.unwrap_or(0);
        env.instance.fee_rate = Some(rate);
        let updated_by: Address = env.instance.admin.unwrap();
        emit_parameter(
            env,
            ParamName::ProtocolFeeRateBps,
            old_rate as i128,
            rate as i128,
            &updated_by,
        );
        Ok(())
    }

    /// Sets the highest discount rate that an invoice may have. Access: admin
    /// only.
    pub fn update_max_discount(env: &mut Env, rate: u32) -> (r: Result<(), ContractError>)
        ensures
            match old(env)@.instance.admin {
                None => r == Err::<(), ContractError>(ContractError::Unauthorized) && final(env)@
                    == old(env)@,
                Some(admin) => r == Ok::<(), ContractError>(()) && final(env)@
                    == old(env)@.authorized(admin).with_instance(
                    Instance { max_discount_rate: Some(rate), ..old(env)@.instance },
                ).published(
                    parameter_event(
                        ParamName::MaxDiscountRateBps,
                        or_default(old(env)@.instance.max_discount_rate, 0) as int,
                        rate as int,
                        admin,
                    ),
                ),
            },
    {
        require_admin(env)?;
        let old_rate: u32 = env.instance.max_discount_rate.unwrap_or(0);
        env.instance.max_discount_rate = Some(rate);
        let updated_by: Address = env.instance.admin.unwrap();
        emit_parameter(
            env,
            ParamName::MaxDiscountRateBps,
            old_rate as i128,
            rate as i128,
            &updated_by,
        );
        Ok(())
    }

    /// Access: admin only.
    pub fn set_distribution_contract(env: &mut Env, distribution_contract: Address) -> (r: Result<
        (),
        ContractError,
    >)
        ensures
            match old(env)@.instance.admin {
                None => r == Err::<(), ContractError>(ContractError::Unauthorized) && final(env)@
                    == old(env)@,
                Some(admin) => r == Ok::<(), ContractError>(()) && final(env)@
                    == old(env)@.authorized(admin).with_instance(
                    Instance {
                        distribution_contract: Some(distribution_contract),
                        ..old(env)@.instance
                    },
                ),
            },
    {
        require_admin(env)?;
        env.instance.distribution_contract = Some(distribution_contract);
        Ok(())
    }

    /// Access: admin only. The admin is asked to authorise twice: for the entry
    /// and for the change of the configuration.
    pub fn set_price_oracle(env: &mut Env, oracle: Address) -> (r: Result<(), ContractError>)
        ensures
            match old(env)@.instance.admin {
                None => r == Err::<(), ContractError>(ContractError::Unauthorized) && final(env)@
                    == old(env)@,
                Some(admin) => match old(env)@.instance.config {
                    None => r == Err::<(), ContractError>(ContractError::Unauthorized) && final(
                        env)@ == old(env)@.authorized(admin),
                    Some(before) => r == Ok::<(), ContractError>(()) && final(env)@
                        == old(env)@.authorized(admin).authorized(admin).with_instance(
                        Instance {
                            config: Some(Config { price_oracle: Some(oracle), ..before }),
                            ..old(env)@.instance
                        },
                    ),
                },
            },
    {
        require_admin(env)?;
        let admin: Address = env.instance.admin.unwrap();
        match config::set_price_oracle(env, &admin, oracle) {
            Ok(()) => Ok(()),
            Err(_) => Err(ContractError::Unauthorized),
        }
    }

    pub fn get_price_oracle(env: &Env) -> (r: Option<Address>)
        ensures
            r == (match env@.instance.config {
                Some(config) => config.price_oracle,
                None => None,
            }),
    {
        match storage::get_config(env) {
            Some(config) => config.price_oracle,
            None => None,
        }
    }

    /// Puts a token on the allowlist. Access: admin only.
    pub fn add_token(env: &mut Env, token: Address) -> (r: Result<(), ContractError>)
        ensures
            match old(env)@.instance.admin {
                None => r == Err::<(), ContractError>(ContractError::Unauthorized) && final(env)@
                    == old(env)@,
                Some(admin) => r == Ok::<(), ContractError>(()) && final(env)@ == token_approved(
                    old(env)@.authorized(admin),
                    token,
                ).published(Event::TokenAdded(TokenAdded { token })),
            },
    {
        require_admin(env)?;
        env.persistent.approved_tokens.set(token, true);
        let mut list: Vec<Address> = get_token_list(env);
        if !holds(&list, &token) {
            list.push(token);
            env.persistent.token_list = Some(list);
        }
        env.publish_event(Event::TokenAdded(TokenAdded { token }));
        Ok(())
    }

    /// Takes a token off the allowlist. Access: admin only.
    pub fn remove_token(env: &mut Env, token: Address) -> (r: Result<(), ContractError>)
        ensures
            match old(env)@.instance.admin {
                None => r == Err::<(), ContractError>(ContractError::Unauthorized) && final(env)@
                    == old(env)@,
                Some(admin) => r == Ok::<(), ContractError>(()) && final(env)@
                    == token_disapproved(old(env)@.authorized(admin), token).published(
                    Event::TokenRemoved(TokenRemoved { token }),
                ),
            },
    {
        require_admin(env)?;
        env.persistent.approved_tokens.set(token, false);
        let list: Vec<Address> = get_token_list(env);
        env.persistent.token_list = Some(take_out(&list, &token));
        env.publish_event(Event::TokenRemoved(TokenRemoved { token }));
        Ok(())
    }

    /// Stops submissions, funding, settlement and the rest. Access: admin only.
    pub fn pause(env: &mut Env) -> (r: Result<(), ContractError>)
        ensures
            match old(env)@.instance.admin {
                None => r == Err::<(), ContractError>(ContractError::Unauthorized) && final(env)@
                    == old(env)@,
                Some(admin) => r == Ok::<(), ContractError>(()) && final(env)@
                    == old(env)@.authorized(admin).with_instance(
                    Instance { paused: Some(true), ..old(env)@.instance },
                ).published(
                    Event::ContractPaused(
                        ContractPaused { timestamp: old(env)@.ledger.timestamp },
                    ),
                ),
            },
    {
        require_admin(env)?;
        set_paused(env, true);
        let timestamp: u64 = env.ledger.timestamp;
        env.publish_event(Event::ContractPaused(ContractPaused { timestamp }));
        Ok(())
    }

    /// Ends a pause. Access: admin only.
    pub fn unpause(env: &mut Env) -> (r: Result<(), ContractError>)
        ensures
            match old(env)@.instance.admin {
                None => r == Err::<(), ContractError>(ContractError::Unauthorized) && final(env)@
                    == old(env)@,
                Some(admin) => r == Ok::<(), ContractError>(()) && final(env)@
                    == old(env)@.authorized(admin).with_instance(
                    Instance { paused: Some(false), ..old(env)@.instance },
                ).published(
                    Event::ContractUnpaused(
                        ContractUnpaused { timestamp: old(env)@.ledger.timestamp },
                    ),
                ),
            },
    {
        require_admin(env)?;
        set_paused(env, false);
        let timestamp: u64 = env.ledger.timestamp;
        env.publish_event(Event::ContractUnpaused(ContractUnpaused { timestamp }));
        Ok(())
    }

    /// Announces an upgrade to new code. Storage does not change, and the code is
    /// replaced elsewhere. Access: admin only.
    pub fn upgrade(env: &mut Env, new_wasm_hash: Hash32) -> (r: Result<(), ContractError>)
        ensures
            match old(env)@.instance.admin {
                None => r == Err::<(), ContractError>(ContractError::Unauthorized) && final(env)@
                    == old(env)@,
                Some(admin) => r == Ok::<(), ContractError>(()) && final(env)@
                    == old(env)@.authorized(admin).published(
                    Event::ContractUpgraded(
                        ContractUpgraded {
                            admin,
                            new_wasm_hash,
                            timestamp: old(env)@.ledger.timestamp,
                        },
                    ),
                ),
            },
    {
        require_admin(env)?;
        let admin: Address = env.instance.admin.unwrap();
        let timestamp: u64 = env.ledger.timestamp;
        env.publish_event(
            Event::ContractUpgraded(ContractUpgraded { admin, new_wasm_hash, timestamp }),
        );
        Ok(())
    }

    pub fn get_contract_stats(env: &Env) -> (r: ContractStats)
        requires
            oracle_answers(env@),
        ensures
            r.total_invoices == env@.total_invoices(),
            r.total_funded == env@.total_funded(),
            r.total_paid == env@.total_paid(),
            r.total_volume_usdc == or_default(env@.persistent.total_volume_usdc, 0),
            r.total_volume_eurc == or_default(env@.persistent.total_volume_eurc, 0),
            r.total_volume_xlm == or_default(env@.persistent.total_volume_xlm, 0),
            r.token_volumes@ == Seq::new(
                env@.token_list().len(),
                |i: int| (env@.token_list()[i], env@.token_volume(env@.token_list()[i])),
            ),
            r.total_volume_usd_normalized == normalized_volume(env@, env@.token_list()),
    {
        invoice::get_contract_stats(env)
    }

    /// One page of the invoices of a freelancer.
    pub fn list_invoices_by_submitter(
        env: &Env,
        submitter: Address,
        page: u32,
        page_size: u32,
    ) -> (r: Vec<Invoice>)
        requires
            page_readable(
                env@,
                env@.submitter_ids(submitter),
                page as int,
                page_size as int,
            ),
        ensures
            r@ == invoices_of(
                env@,
                page_ids(env@.submitter_ids(submitter), page as int, page_size as int),
            ),
    {
        let invoice_ids: Vec<u64> = get_submitter_invoices(env, &submitter);
        load_page(env, &invoice_ids, page, page_size)
    }

    /// One page of the invoices that a liquidity provider has funded.
    pub fn list_invoices_by_lp(env: &Env, lp: Address, page: u32, page_size: u32) -> (r: Vec<
        Invoice,
    >)
        requires
            page_readable(env@, env@.lp_ids(lp), page as int, page_size as int),
        ensures
            r@ == invoices_of(env@, page_ids(env@.lp_ids(lp), page as int, page_size as int)),
    {
        let invoice_ids: Vec<u64> = get_lp_invoices(env, &lp);
        load_page(env, &invoice_ids, page, page_size)
    }

    /// Changes the parameters. Every refusal is reported as a want of authority.
    pub fn update_config(
        env: &mut Env,
        caller: Address,
        high_rep_threshold: u32,
        bonus_bps: u32,
        min_discount_rate_bps: u32,
        decay_rate_bps: u32,
        decay_period_ledgers: u64,
        dispute_timeout_ledgers: u64,
        xlm_sac_address: Address,
    ) -> (r: Result<(), ContractError>)
        ensures
            match config_refusal(old(env)@, caller, bonus_bps, min_discount_rate_bps) {
                Some(_) => r == Err::<(), ContractError>(ContractError::Unauthorized) && final(
                    env)@ == config_refused(old(env)@, caller),
                None => r == Ok::<(), ContractError>(()) && final(env)@ == config_updated(
                    old(env)@,
                    caller,
                    Config {
                        high_rep_threshold,
                        bonus_bps,
                        min_discount_rate_bps,
                        decay_rate_bps,
                        decay_period_ledgers,
                        dispute_timeout_ledgers,
                        xlm_sac_address,
                        price_oracle: old(env)@.instance.config->0.price_oracle,
                    },
                ),
            },
    {
        match config::update_config(
            env,
            &caller,
            high_rep_threshold,
            bonus_bps,
            min_discount_rate_bps,
            decay_rate_bps,
            decay_period_ledgers,
            dispute_timeout_ledgers,
            xlm_sac_address,
        ) {
            Ok(()) => Ok(()),
            Err(_) => Err(ContractError::Unauthorized),
        }
    }

    pub fn get_config(env: &Env) -> (r: Result<Config, ContractError>)
        ensures
            r == (match env@.instance.config {
                Some(config) => Ok::<Config, ContractError>(config),
                None => Err(ContractError::Unauthorized),
            }),
    {
        match storage::get_config(env) {
            Some(config) => Ok(config),
            None => Err(ContractError::Unauthorized),
        }
    }

    pub fn payer_score(env: &Env, payer: Address) -> (r: u32)
        ensures
            r == env@.payer_score(payer),
    {
        get_payer_score(env, &payer)
    }

    pub fn lp_score(env: &Env, lp: Address) -> (r: u32)
        ensures
            r == env@.lp_score(lp),
    {
        get_lp_score(env, &lp)
    }

    /// Detailed reputation of an address; zeros for an unknown one.
    pub fn get_reputation(env: &Env, address: Address) -> (r: ReputationProfile)
        ensures
            r == env@.reputation(address),
    {
        invoice::get_reputation(env, &address)
    }

    /// Lowest payer score at which an invoice can be funded (0 = off).
    pub fn min_payer_reputation(env: &Env) -> (r: u32)
        ensures
            r == env@.min_payer_reputation(),
    {
        get_min_payer_reputation(env)
    }

    /// Access: admin only.
    pub fn set_min_payer_reputation(env: &mut Env, value: u32) -> (r: Result<(), ContractError>)
        ensures
            match old(env)@.instance.admin {
                None => r == Err::<(), ContractError>(ContractError::Unauthorized) && final(env)@
                    == old(env)@,
                Some(admin) => r == Ok::<(), ContractError>(()) && final(env)@
                    == old(env)@.authorized(admin).with_instance(
                    Instance { min_payer_reputation: Some(value), ..old(env)@.instance },
                ).published(
                    parameter_event(
                        ParamName::MinPayerReputation,
                        old(env)@.min_payer_reputation() as int,
                        value as int,
                        admin,
                    ),
                ),
            },
    {
        require_admin(env)?;
        let updated_by: Address = env.instance.admin.unwrap();
        let old_value: u32 = get_min_payer_reputation(env);
        invoice::set_min_payer_reputation(env, value);
        emit_parameter(
            env,
            ParamName::MinPayerReputation,
            old_value as i128,
            value as i128,
            &updated_by,
        );
        Ok(())
    }

    /// A discount rate that suits the payer's score.
    pub fn suggested_discount_rate(env: &Env, payer: Address) -> (r: u32)
        ensures
            r == suggested_rate(env@.payer_score(payer) as int),
    {
        let score: u32 = get_payer_score(env, &payer);
        let capped: u32 = score.min(100);
        let rate: u32 = 500 + (100 - capped) * 5;
        rate.max(50)
    }

    /// The invoice of the given number.
    pub fn get_invoice(env: &Env, invoice_id: u64) -> (r: Result<Invoice, ContractError>)
        ensures
            r == (if env@.has_invoice(invoice_id) {
                Ok::<Invoice, ContractError>(env@.invoice(invoice_id))
            } else {
                Err(ContractError::InvoiceNotFound)
            }),
    {
        if !invoice_exists(env, invoice_id) {
            return Err(ContractError::InvoiceNotFound);
        }
        Ok(load_invoice(env, invoice_id))
    }

    pub fn get_invoice_count(env: &Env) -> (r: u64)
        ensures
            r == env@.invoice_count(),
    {
        env.persistent.invoice_count.unwrap_or(0)
    }
}

/// Loads one page of the invoices on a list.
fn load_page(env: &Env, ids: &Vec<u64>, page: u32, page_size: u32) -> (r: Vec<Invoice>)
    requires
        page_readable(env@, ids@, page as int, page_size as int),
    ensures
        r@ == invoices_of(env@, page_ids(ids@, page as int, page_size as int)),
{
    let size: u32 = page_size.min(50);
    proof {
        assert(size == page_limit(page_size as int));
        assert(page * size >= 0) by (nonlinear_arith);
    }
    let count: u32 = ids.len() as u32;
    let start: u32 = page * size;
    let mut result: Vec<Invoice> = Vec::new();
    if start >= count {
        assert(result@ =~= invoices_of(env@, page_ids(ids@, page as int, page_size as int)));
        return result;
    }
    let end: u32 = (start + size).min(count);
    let ghost wanted = page_ids(ids@, page as int, page_size as int);
    assert(wanted =~= ids@.subrange(start as int, end as int));
    let mut i: u32 = start;
    while i < end
        invariant
            start <= i <= end <= ids@.len(),
            wanted == ids@.subrange(start as int, end as int),
            forall|j: int| 0 <= j < wanted.len() ==> env@.has_invoice(#[trigger] wanted[j]),
            result@ == invoices_of(env@, wanted.take(i - start)),
        decreases end - i,
    {
        assert(wanted[i - start] == ids@[i as int]);
        result.push(load_invoice(env, ids[i as usize]));
        i = i + 1;
        assert(result@ =~= invoices_of(env@, wanted.take(i - start)));
    }
    assert(wanted.take(i - start) =~= wanted);
    result
}

/// A discount rate as a factor for amounts.
pub fn discount_rate_as_i128(rate: u32) -> (r: i128)
    ensures
        r == rate,
{
    rate as i128
}

/// Whether a token is the wrapped native asset.
pub fn is_xlm_token(env: &Env, token: &Address) -> (r: bool)
    ensures
        r == env@.is_xlm(*token),
{
    match storage::get_config(env) {
        Some(config) => *token == config.xlm_sac_address,
        None => false,
    }
}

/// An amount of XLM in the precision of the contract: amounts are kept in the
/// native precision of their token.
pub fn normalize_xlm_amount(amount: i128) -> (r: i128)
    ensures
        r == amount,
{
    amount
}

/// An amount of USDC in the precision of the contract: amounts are kept in the
/// native precision of their token.
pub fn normalize_usdc_amount(amount: i128) -> (r: i128)
    ensures
        r == amount,
{
    amount
}

/// Whether a token is on the allowlist.
pub fn is_approved_token(env: &Env, token: &Address) -> (r: bool)
    ensures
        r == env@.approved(*token),
{
    match env.persistent.approved_tokens.get(token) {
        Some(approved) => *approved,
        None => false,
    }
}

/// The invocation after the distribution contract, if there is one, was told of a
/// contribution.
pub open spec fn funding_notified(s: EnvView, lp: Address, amount: i128) -> EnvView {
    match s.instance.distribution_contract {
        Some(contract) => s.called(HostCall::AccrueLp { contract, lp, amount }),
        None => s,
    }
}

/// The invocation after the distribution contract, if there is one, was told of a
/// settlement.
pub open spec fn settlement_notified(
    s: EnvView,
    freelancer: Address,
    payer: Address,
    on_time: bool,
) -> EnvView {
    match s.instance.distribution_contract {
        Some(contract) => s.called(
            HostCall::AccrueSettlement { contract, freelancer, payer, on_time },
        ),
        None => s,
    }
}

/// Tells the distribution contract of a contribution.
pub fn notify_distribution_funding(env: &mut Env, lp: &Address, amount_usdc_equivalent: i128)
    ensures
        final(env)@ == funding_notified(old(env)@, *lp, amount_usdc_equivalent),
{
    if let Some(contract) = env.instance.distribution_contract {
        env.calls.push(HostCall::AccrueLp { contract, lp: *lp, amount: amount_usdc_equivalent });
    }
}

/// Tells the distribution contract of a settlement.
pub fn notify_distribution_settlement(
    env: &mut Env,
    freelancer: &Address,
    payer: &Address,
    settled_on_time: bool,
)
    ensures
        final(env)@ == settlement_notified(old(env)@, *freelancer, *payer, settled_on_time),
{
    if let Some(contract) = env.instance.distribution_contract {
        env.calls.push(
            HostCall::AccrueSettlement {
                contract,
                freelancer: *freelancer,
                payer: *payer,
                on_time: settled_on_time,
            },
        );
    }
}

} // verus!
