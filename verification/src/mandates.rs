//! What setting the contract up and governing it do, entry by entry and request by request.
use vstd::prelude::*;

use crate::address::{Address, Holding};
use crate::data_key::{DataKey, Value};
use crate::env::{Action, Config, EnvView, Event, Pool, TtlExtension};

verus! {

/// A contract that nobody has set up has no admin, no proposal, no pools and no holdings, is not
/// paused, and holds withdrawals back for 1,440 ledgers.
pub proof fn law_fresh_contracts_are_blank(contract: Address, sequence: u32, h: Holding)
    ensures
        ({
            let v = EnvView::fresh(contract, sequence);
            &&& v.contract == contract
            &&& v.sequence == sequence
            &&& v.config.admin is None
            &&& v.config.proposed_admin is None
            &&& !v.config.paused
            &&& v.config.withdrawal_cooldown == 1_440
            &&& v.config.version == 0
            &&& !v.pools.contains_key(h.token)
            &&& !v.positions.contains_key(h)
            &&& !v.balances.contains_key(h.token)
            &&& v.actions.len() == 0
            &&& v.instance_ttl is None
            &&& !v.entry_ttl.contains_key(DataKey::Shares(h.provider, h.token))
        }),
{
}

/// Setting the contract up names the admin, ends any pause, sets the cooldown to 1,440 ledgers and
/// the version to 4, and writes just that; where there is an admin already it does nothing.
pub proof fn law_initialize_sets_four_entries(v: EnvView, admin: Address)
    ensures
        ({
            let w = v.after_initialize(admin);
            &&& v.config.admin is Some ==> w == v
            &&& v.config.admin is None ==> w == (EnvView {
                config: Config {
                    admin: Some(admin),
                    proposed_admin: v.config.proposed_admin,
                    paused: false,
                    withdrawal_cooldown: 1_440,
                    version: 4,
                },
                instance_ttl: Some(TtlExtension { threshold: 17_280, extend_to: 518_400 }),
                actions: v.actions + seq![
                    Action::Store { key: DataKey::Admin, value: Value::Party(admin) },
                    Action::Store { key: DataKey::Paused, value: Value::Flag(false) },
                    Action::Store {
                        key: DataKey::WithdrawalCooldown,
                        value: Value::Number(1_440),
                    },
                    Action::Store { key: DataKey::Version, value: Value::Number(4) },
                ],
                ..v
            })
        }),
{
}

/// An upgrade, which the admin authorises, counts the version up by one, unless it is the last, and
/// installs the code last of all.
pub proof fn law_upgrade_counts_and_installs(v: EnvView, hash: [u8; 32])
    requires
        v.config.admin is Some,
    ensures
        ({
            let w = v.after_upgrade(hash);
            let old_version = v.config.version;
            let new_version = w.config.version;
            &&& old_version < u32::MAX ==> new_version == old_version + 1
            &&& old_version == u32::MAX ==> new_version == u32::MAX
            &&& w == (EnvView {
                config: Config { version: new_version, ..v.config },
                instance_ttl: Some(TtlExtension { threshold: 17_280, extend_to: 518_400 }),
                actions: v.actions + seq![
                    Action::RequireAuth(v.config.admin->0),
                    Action::Store { key: DataKey::Version, value: Value::Number(new_version) },
                    Action::Publish(Event::ContractUpgraded { old_version, new_version }),
                    Action::UpdateWasm(hash),
                ],
                ..v
            })
        }),
{
}

/// The admin sets the cap of one token's pool to any amount that is not negative, and nothing else
/// of it; a negative one changes nothing.
pub proof fn law_set_max_pool_size_moves_one_cap(
    v: EnvView,
    token: Address,
    max: i128,
    other: Address,
)
    requires
        v.config.admin is Some,
    ensures
        ({
            let w = v.after_set_max_pool_size(token, max);
            let p = v.pool(token);
            let asked = v.actions.push(Action::RequireAuth(v.config.admin->0));
            &&& max >= 0 ==> w.pool(token) == (Pool { max_pool_size: max, ..p })
            &&& max < 0 ==> w.pools == v.pools
            &&& other != token ==> w.pool(other) == v.pool(other)
            &&& w.actions == if max >= 0 {
                asked.push(
                    Action::Store { key: DataKey::MaxPoolSize(token), value: Value::Amount(max) },
                ).push(
                    Action::Publish(
                        Event::DepositCapUpdated {
                            token,
                            old_max: p.max_pool_size,
                            new_max: max,
                            total_deposits: p.total_deposits,
                        },
                    ),
                )
            } else {
                asked
            }
            &&& w == (EnvView {
                pools: w.pools,
                actions: w.actions,
                instance_ttl: Some(TtlExtension { threshold: 17_280, extend_to: 518_400 }),
                ..v
            })
        }),
{
}

/// The admin sets the cooldown to any number of ledgers up to 518,400; a longer one changes
/// nothing.
pub proof fn law_set_withdrawal_cooldown_moves_the_cooldown(v: EnvView, ledgers: u32)
    requires
        v.config.admin is Some,
    ensures
        ({
            let w = v.after_set_withdrawal_cooldown(ledgers);
            let asked = v.actions.push(Action::RequireAuth(v.config.admin->0));
            let set = ledgers <= 518_400;
            w == (EnvView {
                config: Config {
                    withdrawal_cooldown: if set {
                        ledgers
                    } else {
                        v.config.withdrawal_cooldown
                    },
                    ..v.config
                },
                actions: if set {
                    asked.push(
                        Action::Store {
                            key: DataKey::WithdrawalCooldown,
                            value: Value::Number(ledgers),
                        },
                    ).push(
                        Action::Publish(
                            Event::WithdrawalCooldownUpdated {
                                old_cooldown: v.config.withdrawal_cooldown,
                                new_cooldown: ledgers,
                            },
                        ),
                    )
                } else {
                    asked
                },
                instance_ttl: Some(TtlExtension { threshold: 17_280, extend_to: 518_400 }),
                ..v
            })
        }),
{
}

/// The admin names the loan manager of one token, and nothing else of its pool.
pub proof fn law_set_loan_manager_names_one(
    v: EnvView,
    token: Address,
    loan_manager: Address,
    other: Address,
)
    requires
        v.config.admin is Some,
    ensures
        ({
            let w = v.after_set_loan_manager(token, loan_manager);
            &&& w.pool(token) == (Pool { loan_manager: Some(loan_manager), ..v.pool(token) })
            &&& other != token ==> w.pool(other) == v.pool(other)
            &&& w == (EnvView {
                pools: w.pools,
                actions: v.actions + seq![
                    Action::RequireAuth(v.config.admin->0),
                    Action::Store {
                        key: DataKey::LoanManager(token),
                        value: Value::Party(loan_manager),
                    },
                    Action::Publish(Event::LoanManagerUpdated { token, loan_manager }),
                ],
                instance_ttl: Some(TtlExtension { threshold: 17_280, extend_to: 518_400 }),
                ..v
            })
        }),
{
}

/// The admin proposes the next one, and stays the admin.
pub proof fn law_propose_admin_names_a_candidate(v: EnvView, new_admin: Address)
    requires
        v.config.admin is Some,
    ensures
        v.after_propose_admin(new_admin) == (EnvView {
            config: Config { proposed_admin: Some(new_admin), ..v.config },
            actions: v.actions + seq![
                Action::RequireAuth(v.config.admin->0),
                Action::Store { key: DataKey::ProposedAdmin, value: Value::Party(new_admin) },
                Action::Publish(
                    Event::AdminProposed {
                        current_admin: v.config.admin->0,
                        proposed_admin: new_admin,
                    },
                ),
            ],
            instance_ttl: Some(TtlExtension { threshold: 17_280, extend_to: 518_400 }),
            ..v
        }),
{
}

/// The one proposed becomes the admin by their own authorisation, and the proposal is gone; where
/// nobody is proposed nothing happens.
pub proof fn law_accept_admin_needs_the_candidate(v: EnvView)
    ensures
        v.config.proposed_admin is None ==> v.after_accept_admin() == v,
        v.config.proposed_admin is Some ==> v.after_accept_admin() == ({
            let new_admin = v.config.proposed_admin->0;
            EnvView {
                config: Config { admin: Some(new_admin), proposed_admin: None, ..v.config },
                actions: v.actions + seq![
                    Action::RequireAuth(new_admin),
                    Action::Store { key: DataKey::Admin, value: Value::Party(new_admin) },
                    Action::Remove { key: DataKey::ProposedAdmin },
                    Action::Publish(Event::AdminTransferred { new_admin }),
                ],
                instance_ttl: Some(TtlExtension { threshold: 17_280, extend_to: 518_400 }),
                ..v
            }
        }),
{
}

/// The admin hands the contract over at once, by their own authorisation, and any proposal is
/// gone.
pub proof fn law_set_admin_needs_the_admin(v: EnvView, new_admin: Address)
    requires
        v.config.admin is Some,
    ensures
        v.after_set_admin(new_admin) == (EnvView {
            config: Config { admin: Some(new_admin), proposed_admin: None, ..v.config },
            actions: v.actions + seq![
                Action::RequireAuth(v.config.admin->0),
                Action::Store { key: DataKey::Admin, value: Value::Party(new_admin) },
                Action::Remove { key: DataKey::ProposedAdmin },
                Action::Publish(Event::AdminTransferred { new_admin }),
            ],
            instance_ttl: Some(TtlExtension { threshold: 17_280, extend_to: 518_400 }),
            ..v
        }),
{
}

/// The admin pauses the contract or ends the pause, whichever it was before, and says so.
pub proof fn law_set_paused_sets_the_pause(v: EnvView, paused: bool)
    requires
        v.config.admin is Some,
    ensures
        v.after_set_paused(paused) == (EnvView {
            config: Config { paused, ..v.config },
            actions: v.actions + seq![
                Action::RequireAuth(v.config.admin->0),
                Action::Store { key: DataKey::Paused, value: Value::Flag(paused) },
                Action::Publish(
                    if paused {
                        Event::PoolPaused
                    } else {
                        Event::PoolUnpaused
                    },
                ),
            ],
            instance_ttl: Some(TtlExtension { threshold: 17_280, extend_to: 518_400 }),
            ..v
        }),
{
}

/// Which entry stands under which key.
pub proof fn law_keys_name_their_entries(v: EnvView, provider: Address, token: Address)
    ensures
        ({
            let p = v.pool(token);
            let x = v.position(Holding { provider, token });
            let c = v.config;
            &&& v.entry(DataKey::Admin) == match c.admin {
                Some(a) => Some(Value::Party(a)),
                None => None,
            }
            &&& v.entry(DataKey::ProposedAdmin) == match c.proposed_admin {
                Some(a) => Some(Value::Party(a)),
                None => None,
            }
            &&& v.entry(DataKey::Paused) == Some(Value::Flag(c.paused))
            &&& v.entry(DataKey::WithdrawalCooldown) == Some(Value::Number(c.withdrawal_cooldown))
            &&& v.entry(DataKey::Version) == Some(Value::Number(c.version))
            &&& v.entry(DataKey::MaxPoolSize(token)) == Some(Value::Amount(p.max_pool_size))
            &&& v.entry(DataKey::TotalShares(token)) == Some(Value::Amount(p.total_shares))
            &&& v.entry(DataKey::TotalDeposits(token)) == Some(Value::Amount(p.total_deposits))
            &&& v.entry(DataKey::TotalManagedAssets(token)) == Some(
                Value::Amount(p.total_managed_assets),
            )
            &&& v.entry(DataKey::LoanManager(token)) == match p.loan_manager {
                Some(a) => Some(Value::Party(a)),
                None => None,
            }
            &&& v.entry(DataKey::DepositorCount(token)) == Some(Value::Number(p.depositor_count))
            &&& v.entry(DataKey::Shares(provider, token)) == Some(Value::Amount(x.shares))
            &&& v.entry(DataKey::DepositTimestamp(provider, token)) == match x.deposit_ledger {
                Some(n) => Some(Value::Number(n)),
                None => None,
            }
        }),
{
}

/// Which kind of value belongs under which key, and which entries live apart from the contract:
/// those of a holding.
pub proof fn law_keys_have_one_kind_of_value(key: DataKey, value: Value)
    ensures
        key.suits(value) <==> match value {
            Value::Party(_) => key is Admin || key is ProposedAdmin || key is LoanManager,
            Value::Flag(_) => key is Paused,
            Value::Number(_) => key is WithdrawalCooldown || key is Version || key is DepositorCount
                || key is DepositTimestamp,
            Value::Amount(_) => key is MaxPoolSize || key is TotalShares || key is TotalDeposits
                || key is TotalManagedAssets || key is Shares,
        },
        key.place() is Position <==> key is Shares || key is DepositTimestamp,
{
}

} // verus!
