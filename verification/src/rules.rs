//! The rules of the pool: when a call is refused, and what one that is not refused leaves behind.
use vstd::prelude::*;

use crate::address::{Address, Holding};
use crate::data_key::{DataKey, Value};
use crate::env::{
    Action, Config, EnvView, Event, Pool, Position, TtlExtension, DEFAULT_WITHDRAWAL_COOLDOWN,
};
use crate::error::PoolError;
use crate::math;

verus! {

/// Ledgers left to live at or under which the contract-wide and per-token entries are extended.
pub const INSTANCE_TTL_THRESHOLD: u32 = 17_280;

/// Ledgers for which they then live.
pub const INSTANCE_TTL_BUMP: u32 = 518_400;

/// Ledgers left to live at or under which the entries of a holding are extended.
pub const PERSISTENT_TTL_THRESHOLD: u32 = 17_280;

/// Ledgers for which they then live.
pub const PERSISTENT_TTL_BUMP: u32 = 518_400;

/// Version that `initialize` notes.
pub const CURRENT_VERSION: u32 = 4;

/// What `get_share_price` reports for a price of one asset per share.
pub const SHARE_PRICE_SCALE: i128 = 1_000_000;

/// Longest cooldown that the admin can set.
pub const MAX_WITHDRAWAL_COOLDOWN_LEDGERS: u32 = 17_280 * 30;

/// Least amount that opens a pool without shares. It makes a share too dear to be priced out of
/// the reach of the next depositor.
pub const MINIMUM_INITIAL_DEPOSIT: i128 = 1_000;

impl TtlExtension {
    /// How long contract-wide and per-token entries are kept alive.
    pub open spec fn instance() -> TtlExtension {
        TtlExtension { threshold: INSTANCE_TTL_THRESHOLD, extend_to: INSTANCE_TTL_BUMP }
    }

    /// How long the entries of a holding are kept alive.
    pub open spec fn persistent() -> TtlExtension {
        TtlExtension { threshold: PERSISTENT_TTL_THRESHOLD, extend_to: PERSISTENT_TTL_BUMP }
    }
}

impl EnvView {
    /// After contract-wide or per-token entries were used.
    pub open spec fn bumped(self) -> EnvView {
        self.keeping_instance(TtlExtension::instance())
    }

    /// After the shares of `h` were read.
    pub open spec fn shares_read(self, h: Holding) -> EnvView {
        if self.position(h).shares > 0 {
            self.keeping(DataKey::shares_of(h), TtlExtension::persistent())
        } else {
            self
        }
    }

    /// After the ledger of the latest deposit of `h` was read.
    pub open spec fn timestamp_read(self, h: Holding) -> EnvView {
        if self.position(h).deposit_ledger is Some {
            self.keeping(DataKey::timestamp_of(h), TtlExtension::persistent())
        } else {
            self
        }
    }
}

impl Pool {
    /// The pool after a deposit of `amount` by someone who held `held` shares.
    pub open spec fn after_deposit(self, held: int, amount: int) -> Pool {
        let bought = math::shares_bought(
            amount,
            self.total_managed_assets as int,
            self.total_shares as int,
        );
        Pool {
            total_shares: (self.total_shares + bought) as i128,
            total_deposits: (self.total_deposits + amount) as i128,
            total_managed_assets: (self.total_managed_assets + amount) as i128,
            depositor_count: if held == 0 {
                (self.depositor_count + 1) as u32
            } else {
                self.depositor_count
            },
            ..self
        }
    }

    /// The pool after someone who held `held` shares redeemed `shares` of them.
    pub open spec fn after_redemption(self, held: int, shares: int) -> Pool {
        let paid = math::assets_for(
            shares,
            self.total_managed_assets as int,
            self.total_shares as int,
        );
        let principal = math::pro_rata(
            shares,
            self.total_deposits as int,
            self.total_shares as int,
        );
        Pool {
            total_shares: (self.total_shares - shares) as i128,
            total_deposits: math::saturating_difference(
                self.total_deposits as int,
                principal,
            ) as i128,
            total_managed_assets: (self.total_managed_assets - paid) as i128,
            depositor_count: if held == shares {
                (self.depositor_count - 1) as u32
            } else {
                self.depositor_count
            },
            ..self
        }
    }

    /// Whether the principal is over the cap.
    pub open spec fn over_cap(self) -> bool {
        self.max_pool_size != 0 && self.total_deposits > self.max_pool_size
    }

    /// Price of a share in units of `1 / SHARE_PRICE_SCALE` assets.
    pub open spec fn share_price(self) -> int {
        if self.total_shares <= 0 {
            SHARE_PRICE_SCALE as int
        } else {
            math::pro_rata(
                SHARE_PRICE_SCALE as int,
                self.total_managed_assets as int,
                self.total_shares as int,
            )
        }
    }

    /// Whether the price of a share cannot be worked out.
    pub open spec fn share_price_traps(self) -> bool {
        self.total_shares > 0 && !math::fits(SHARE_PRICE_SCALE * self.total_managed_assets)
    }

    /// Principal out on loan, as far as the balance shows it.
    pub open spec fn borrowed(self, balance: int) -> int {
        if self.total_deposits > 0 && balance < self.total_deposits {
            self.total_deposits - balance
        } else {
            0
        }
    }

    /// Share of the principal out on loan, in ten-thousandths.
    pub open spec fn utilization(self, balance: int) -> int {
        if self.borrowed(balance) == 0 {
            0
        } else {
            self.borrowed(balance) * 10_000 / (self.total_deposits as int)
        }
    }

    /// Whether the utilisation cannot be worked out.
    pub open spec fn utilization_traps(self, balance: int) -> bool {
        !math::fits(self.borrowed(balance) * 10_000)
    }
}

impl EnvView {
    // Deposits

    /// Shares that a deposit of `amount` buys now.
    pub open spec fn minted(self, token: Address, amount: int) -> int {
        let p = self.pool(token);
        math::shares_bought(amount, p.total_managed_assets as int, p.total_shares as int)
    }

    /// Whether `amount` more would take the principal over the cap.
    pub open spec fn over_cap_by(self, token: Address, amount: int) -> bool {
        let p = self.pool(token);
        p.max_pool_size > 0 && p.total_deposits + amount > p.max_pool_size
    }

    /// Whether `amount` is too little to open a pool without shares.
    pub open spec fn too_little_to_open(self, token: Address, amount: int) -> bool {
        self.pool(token).total_shares == 0 && amount < MINIMUM_INITIAL_DEPOSIT
    }

    /// Why a deposit is refused, if it is.
    pub open spec fn deposit_refusal(self, h: Holding, amount: int) -> Option<PoolError> {
        if self.config.paused {
            Some(PoolError::ContractPaused)
        } else if amount <= 0 {
            Some(PoolError::InvalidAmount)
        } else if self.over_cap_by(h.token, amount) {
            Some(PoolError::PoolSizeExceeded)
        } else if self.too_little_to_open(h.token, amount) || self.minted(h.token, amount) <= 0 {
            Some(PoolError::InvalidAmount)
        } else {
            None
        }
    }

    /// Whether a deposit aborts instead of returning: a sum or product that is needed cannot be
    /// held, or shares are outstanding that no assets back.
    pub open spec fn deposit_traps(self, h: Holding, amount: int) -> bool {
        let p = self.pool(h.token);
        let shares = self.position(h).shares;
        &&& !self.config.paused
        &&& amount > 0
        &&& {
            ||| p.max_pool_size > 0 && !math::fits(p.total_deposits + amount)
            ||| !self.over_cap_by(h.token, amount) && !self.too_little_to_open(h.token, amount) && {
                ||| p.total_shares != 0 && (p.total_managed_assets <= 0 || !math::fits(
                    amount * p.total_shares,
                ))
                ||| self.minted(h.token, amount) > 0 && {
                    ||| shares == 0 && p.depositor_count == u32::MAX
                    ||| !math::fits(shares + self.minted(h.token, amount))
                    ||| !math::fits(p.total_shares + self.minted(h.token, amount))
                    ||| !math::fits(p.total_deposits + amount)
                    ||| !math::fits(p.total_managed_assets + amount)
                }
            }
        }
    }

    /// What a deposit that is not refused leaves behind.
    pub open spec fn deposited(self, h: Holding, amount: int) -> EnvView {
        let bought = self.minted(h.token, amount);
        let held = self.position(h).shares;
        let p = self.pool(h.token).after_deposit(held as int, amount);
        let shares = (held + bought) as i128;
        let paid = self.bumped().asked(
            Action::Transfer {
                token: h.token,
                from: h.provider,
                to: self.contract,
                amount: amount as i128,
            },
        );
        let counted = if held == 0 {
            paid.storing(DataKey::DepositorCount(h.token), Value::Number(p.depositor_count))
        } else {
            paid
        };
        counted.with_pool(h.token, p).with_position(
            h,
            Position { shares, deposit_ledger: Some(self.sequence) },
        ).keeping(DataKey::shares_of(h), TtlExtension::persistent()).keeping(
            DataKey::timestamp_of(h),
            TtlExtension::persistent(),
        ).storing(DataKey::shares_of(h), Value::Amount(shares)).storing(
            DataKey::timestamp_of(h),
            Value::Number(self.sequence),
        ).storing(DataKey::TotalShares(h.token), Value::Amount(p.total_shares)).storing(
            DataKey::TotalDeposits(h.token),
            Value::Amount(p.total_deposits),
        ).storing(
            DataKey::TotalManagedAssets(h.token),
            Value::Amount(p.total_managed_assets),
        ).asked(
            Action::Publish(
                Event::Deposit {
                    provider: h.provider,
                    token: h.token,
                    amount: amount as i128,
                    shares: bought as i128,
                },
            ),
        )
    }

    /// What a deposit leaves behind, refused or not.
    pub open spec fn after_deposit(self, h: Holding, amount: int) -> EnvView {
        let asked = self.asked(Action::RequireAuth(h.provider));
        if self.deposit_refusal(h, amount) is Some {
            asked.bumped()
        } else {
            asked.deposited(h, amount)
        }
    }

    // Redemptions

    /// Assets that `shares` redeem to now.
    pub open spec fn payout(self, token: Address, shares: int) -> int {
        let p = self.pool(token);
        math::assets_for(shares, p.total_managed_assets as int, p.total_shares as int)
    }

    /// Why `shares` cannot be priced for redemption, if they cannot. What the contract's address
    /// holds of the token does not enter into it.
    pub open spec fn pricing_refusal(self, h: Holding, shares: int) -> Option<PoolError> {
        let p = self.pool(h.token);
        if shares <= 0 {
            Some(PoolError::InvalidAmount)
        } else if self.position(h).shares < shares {
            Some(PoolError::InsufficientBalance)
        } else if !math::can_price(shares, p.total_managed_assets as int, p.total_shares as int)
            || self.payout(h.token, shares) <= 0 {
            Some(PoolError::InvalidAmount)
        } else {
            None
        }
    }

    /// Why a redemption is refused, if it is.
    pub open spec fn redemption_refusal(self, h: Holding, shares: int) -> Option<PoolError> {
        if self.pricing_refusal(h, shares) is Some {
            self.pricing_refusal(h, shares)
        } else if self.balances[h.token] < self.payout(h.token, shares) {
            Some(PoolError::InsufficientLiquidity)
        } else {
            None
        }
    }

    /// Whether the balance that decides about a redemption is known.
    pub open spec fn liquidity_known(self, h: Holding, shares: int) -> bool {
        self.pricing_refusal(h, shares) is None ==> self.balances.contains_key(h.token)
    }

    /// Whether a redemption aborts instead of returning: the principal cannot be worked out, the
    /// last share of a holding is burnt in a pool that counts no depositors, or some shares stay
    /// with a holding that has no deposit ledger to keep alive.
    pub open spec fn redemption_traps(self, h: Holding, shares: int) -> bool {
        let p = self.pool(h.token);
        let position = self.position(h);
        &&& self.redemption_refusal(h, shares) is None
        &&& {
            ||| !math::fits(shares * p.total_deposits)
            ||| position.shares == shares && p.depositor_count == 0
            ||| position.shares != shares && position.deposit_ledger is None
        }
    }

    /// What a redemption that is not refused leaves behind. The accounting is written before the
    /// assets leave.
    pub open spec fn redeemed(self, h: Holding, shares: int) -> EnvView {
        let position = self.position(h);
        let p = self.pool(h.token).after_redemption(position.shares as int, shares);
        let remaining = (position.shares - shares) as i128;
        let settled = if position.shares == shares {
            self.bumped().without_position(h).removing(DataKey::shares_of(h)).removing(
                DataKey::timestamp_of(h),
            ).storing(DataKey::DepositorCount(h.token), Value::Number(p.depositor_count))
        } else {
            self.bumped().with_position(h, Position { shares: remaining, ..position }).keeping(
                DataKey::shares_of(h),
                TtlExtension::persistent(),
            ).keeping(DataKey::timestamp_of(h), TtlExtension::persistent()).storing(
                DataKey::shares_of(h),
                Value::Amount(remaining),
            )
        };
        settled.with_pool(h.token, p).storing(
            DataKey::TotalShares(h.token),
            Value::Amount(p.total_shares),
        ).storing(
            DataKey::TotalManagedAssets(h.token),
            Value::Amount(p.total_managed_assets),
        ).storing(DataKey::TotalDeposits(h.token), Value::Amount(p.total_deposits)).asked(
            Action::Transfer {
                token: h.token,
                from: self.contract,
                to: h.provider,
                amount: self.payout(h.token, shares) as i128,
            },
        )
    }

    /// What a refused redemption leaves behind: no more than the wish to keep alive what it read.
    pub open spec fn redemption_refused(self, h: Holding, shares: int) -> EnvView {
        if shares <= 0 {
            self
        } else if self.position(h).shares < shares {
            self.shares_read(h)
        } else {
            self.shares_read(h).bumped()
        }
    }

    /// What a redemption leaves behind, refused or not.
    pub open spec fn after_redemption(self, h: Holding, shares: int) -> EnvView {
        if self.redemption_refusal(h, shares) is Some {
            self.redemption_refused(h, shares)
        } else {
            self.redeemed(h, shares)
        }
    }

    /// First ledger in which the cooldown that `deposit_ledger` began is over.
    pub open spec fn cooldown_end(self, deposit_ledger: u32) -> int {
        if deposit_ledger + self.config.withdrawal_cooldown > u32::MAX {
            u32::MAX as int
        } else {
            deposit_ledger + self.config.withdrawal_cooldown
        }
    }

    /// Whether the cooldown after the latest deposit of `h` still runs.
    pub open spec fn cooling_down(self, h: Holding) -> bool {
        &&& self.config.withdrawal_cooldown != 0
        &&& self.position(h).deposit_ledger matches Some(deposit_ledger)
        &&& self.sequence < self.cooldown_end(deposit_ledger)
    }

    /// After the cooldown of `h` was checked.
    pub open spec fn cooldown_checked(self, h: Holding) -> EnvView {
        if self.config.withdrawal_cooldown == 0 {
            self.bumped()
        } else {
            self.bumped().timestamp_read(h)
        }
    }

    /// Why a withdrawal is refused, if it is.
    pub open spec fn withdrawal_refusal(self, h: Holding, shares: int) -> Option<PoolError> {
        if self.config.paused {
            Some(PoolError::ContractPaused)
        } else if self.cooling_down(h) {
            Some(PoolError::WithdrawalCooldownActive)
        } else {
            self.redemption_refusal(h, shares)
        }
    }

    /// Whether a withdrawal gets as far as to look at the balance.
    pub open spec fn withdrawal_asks_balance(self, h: Holding, shares: int) -> bool {
        !self.config.paused && !self.cooling_down(h) && self.pricing_refusal(h, shares) is None
    }

    /// Whether the balance that decides about a withdrawal is known.
    pub open spec fn withdrawal_liquidity_known(self, h: Holding, shares: int) -> bool {
        self.withdrawal_asks_balance(h, shares) ==> self.balances.contains_key(h.token)
    }

    /// Whether a withdrawal aborts instead of returning.
    pub open spec fn withdrawal_traps(self, h: Holding, shares: int) -> bool {
        !self.config.paused && !self.cooling_down(h) && self.redemption_traps(h, shares)
    }

    /// What a withdrawal leaves behind.
    pub open spec fn after_withdrawal(self, h: Holding, shares: int) -> EnvView {
        let asked = self.asked(Action::RequireAuth(h.provider)).bumped();
        let checked = asked.cooldown_checked(h);
        if self.config.paused {
            asked
        } else if self.cooling_down(h) {
            checked
        } else if self.redemption_refusal(h, shares) is Some {
            checked.after_redemption(h, shares)
        } else {
            checked.after_redemption(h, shares).asked(
                Action::Publish(
                    Event::Withdraw {
                        provider: h.provider,
                        token: h.token,
                        amount: self.payout(h.token, shares) as i128,
                        shares: shares as i128,
                    },
                ),
            )
        }
    }

    /// Why an emergency withdrawal is refused, if it is.
    pub open spec fn emergency_refusal(self, h: Holding, shares: int) -> Option<PoolError> {
        if !self.config.paused {
            Some(PoolError::NotPaused)
        } else {
            self.redemption_refusal(h, shares)
        }
    }

    /// Whether an emergency withdrawal gets as far as to look at the balance.
    pub open spec fn emergency_asks_balance(self, h: Holding, shares: int) -> bool {
        self.config.paused && self.pricing_refusal(h, shares) is None
    }

    /// Whether the balance that decides about an emergency withdrawal is known.
    pub open spec fn emergency_liquidity_known(self, h: Holding, shares: int) -> bool {
        self.emergency_asks_balance(h, shares) ==> self.balances.contains_key(h.token)
    }

    /// Whether an emergency withdrawal aborts instead of returning.
    pub open spec fn emergency_traps(self, h: Holding, shares: int) -> bool {
        self.config.paused && self.redemption_traps(h, shares)
    }

    /// What an emergency withdrawal leaves behind.
    pub open spec fn after_emergency(self, h: Holding, shares: int) -> EnvView {
        let asked = self.asked(Action::RequireAuth(h.provider)).bumped();
        if !self.config.paused {
            asked
        } else if self.redemption_refusal(h, shares) is Some {
            asked.after_redemption(h, shares)
        } else {
            asked.after_redemption(h, shares).asked(
                Action::Publish(
                    Event::EmergencyWithdraw {
                        provider: h.provider,
                        token: h.token,
                        amount: self.payout(h.token, shares) as i128,
                        shares: shares as i128,
                    },
                ),
            )
        }
    }

    // Yield

    /// Who must authorise a report of yield: the loan manager of the token, or the admin while
    /// there is none. Nobody can before either is known.
    pub open spec fn yield_reporter(self, token: Address) -> Option<Address> {
        if self.pool(token).loan_manager is Some {
            self.pool(token).loan_manager
        } else {
            self.config.admin
        }
    }

    /// Why a report of yield is refused, if it is.
    pub open spec fn yield_refusal(self, token: Address, amount: int) -> Option<PoolError> {
        if self.config.paused {
            Some(PoolError::ContractPaused)
        } else if amount <= 0 || self.pool(token).total_shares <= 0 {
            Some(PoolError::InvalidAmount)
        } else {
            None
        }
    }

    /// Whether a report of yield aborts instead of returning: nobody can authorise it, or the sum
    /// cannot be held.
    pub open spec fn yield_traps(self, token: Address, amount: int) -> bool {
        ||| self.yield_reporter(token) is None
        ||| self.yield_refusal(token, amount) is None && !math::fits(
            self.pool(token).total_managed_assets + amount,
        )
    }

    /// What a report of yield leaves behind.
    pub open spec fn after_yield(self, token: Address, amount: int) -> EnvView {
        let asked = self.bumped().asked(Action::RequireAuth(self.yield_reporter(token)->0));
        let p = self.pool(token);
        let managed = (p.total_managed_assets + amount) as i128;
        if self.yield_refusal(token, amount) is Some {
            asked
        } else {
            asked.with_pool(token, Pool { total_managed_assets: managed, ..p }).storing(
                DataKey::TotalManagedAssets(token),
                Value::Amount(managed),
            ).asked(
                Action::Publish(Event::YieldDistributed { token, amount: amount as i128 }),
            )
        }
    }

    // Queries

    /// What the shares of a holding are worth; nothing if they cannot be priced.
    pub open spec fn stake_value(self, h: Holding) -> int {
        let p = self.pool(h.token);
        let shares = self.position(h).shares as int;
        if math::can_price(shares, p.total_managed_assets as int, p.total_shares as int) {
            self.payout(h.token, shares)
        } else {
            0
        }
    }

    /// After the value of a holding was worked out.
    pub open spec fn stake_read(self, h: Holding) -> EnvView {
        if self.position(h).shares == 0 {
            self
        } else {
            self.shares_read(h).bumped()
        }
    }

    /// No shares are worth nothing.
    pub proof fn lemma_no_shares_no_value(self, h: Holding)
        ensures
            self.position(h).shares == 0 ==> self.stake_value(h) == 0,
    {
        let p = self.pool(h.token);
        if self.position(h).shares == 0 && p.total_shares > 0 {
            math::lemma_quotient_bounds(0, p.total_shares as int);
        }
    }

    // Governance

    /// After the admin was asked to authorise the call.
    pub open spec fn admin_asked(self) -> EnvView {
        self.bumped().asked(Action::RequireAuth(self.config.admin->0))
    }

    /// After the event was published.
    pub open spec fn told(self, event: Event) -> EnvView {
        self.asked(Action::Publish(event))
    }

    /// What `initialize` leaves behind.
    pub open spec fn after_initialize(self, admin: Address) -> EnvView {
        if self.config.admin is Some {
            self
        } else {
            self.bumped().with_config(
                Config {
                    admin: Some(admin),
                    paused: false,
                    withdrawal_cooldown: DEFAULT_WITHDRAWAL_COOLDOWN,
                    version: CURRENT_VERSION,
                    ..self.config
                },
            ).storing(DataKey::Admin, Value::Party(admin)).storing(
                DataKey::Paused,
                Value::Flag(false),
            ).storing(
                DataKey::WithdrawalCooldown,
                Value::Number(DEFAULT_WITHDRAWAL_COOLDOWN),
            ).storing(DataKey::Version, Value::Number(CURRENT_VERSION))
        }
    }

    /// What `upgrade` leaves behind.
    pub open spec fn after_upgrade(self, new_wasm_hash: [u8; 32]) -> EnvView {
        let old_version = self.config.version;
        let new_version = if old_version == u32::MAX {
            old_version
        } else {
            (old_version + 1) as u32
        };
        self.admin_asked().with_config(Config { version: new_version, ..self.config }).storing(
            DataKey::Version,
            Value::Number(new_version),
        ).told(Event::ContractUpgraded { old_version, new_version }).asked(
            Action::UpdateWasm(new_wasm_hash),
        )
    }

    /// What `set_max_pool_size` leaves behind.
    pub open spec fn after_set_max_pool_size(self, token: Address, max: i128) -> EnvView {
        let p = self.pool(token);
        if max < 0 {
            self.admin_asked()
        } else {
            self.admin_asked().with_pool(token, Pool { max_pool_size: max, ..p }).storing(
                DataKey::MaxPoolSize(token),
                Value::Amount(max),
            ).told(
                Event::DepositCapUpdated {
                    token,
                    old_max: p.max_pool_size,
                    new_max: max,
                    total_deposits: p.total_deposits,
                },
            )
        }
    }

    /// What `set_withdrawal_cooldown` leaves behind.
    pub open spec fn after_set_withdrawal_cooldown(self, ledgers: u32) -> EnvView {
        if ledgers > MAX_WITHDRAWAL_COOLDOWN_LEDGERS {
            self.admin_asked()
        } else {
            self.admin_asked().with_config(
                Config { withdrawal_cooldown: ledgers, ..self.config },
            ).storing(DataKey::WithdrawalCooldown, Value::Number(ledgers)).told(
                Event::WithdrawalCooldownUpdated {
                    old_cooldown: self.config.withdrawal_cooldown,
                    new_cooldown: ledgers,
                },
            )
        }
    }

    /// What `set_loan_manager` leaves behind.
    pub open spec fn after_set_loan_manager(
        self,
        token: Address,
        loan_manager: Address,
    ) -> EnvView {
        self.admin_asked().with_pool(
            token,
            Pool { loan_manager: Some(loan_manager), ..self.pool(token) },
        ).storing(DataKey::LoanManager(token), Value::Party(loan_manager)).told(
            Event::LoanManagerUpdated { token, loan_manager },
        )
    }

    /// What `propose_admin` leaves behind.
    pub open spec fn after_propose_admin(self, new_admin: Address) -> EnvView {
        self.admin_asked().with_config(
            Config { proposed_admin: Some(new_admin), ..self.config },
        ).storing(DataKey::ProposedAdmin, Value::Party(new_admin)).told(
            Event::AdminProposed {
                current_admin: self.config.admin->0,
                proposed_admin: new_admin,
            },
        )
    }

    /// After the contract was handed to another admin.
    pub open spec fn handed_to(self, new_admin: Address) -> EnvView {
        self.with_config(
            Config { admin: Some(new_admin), proposed_admin: None, ..self.config },
        ).storing(DataKey::Admin, Value::Party(new_admin)).removing(DataKey::ProposedAdmin).told(
            Event::AdminTransferred { new_admin },
        )
    }

    /// What `accept_admin` leaves behind.
    pub open spec fn after_accept_admin(self) -> EnvView {
        match self.config.proposed_admin {
            None => self,
            Some(new_admin) => self.bumped().asked(Action::RequireAuth(new_admin)).handed_to(
                new_admin,
            ),
        }
    }

    /// What `set_admin` leaves behind.
    pub open spec fn after_set_admin(self, new_admin: Address) -> EnvView {
        self.admin_asked().handed_to(new_admin)
    }

    /// What `pause` and `unpause` leave behind.
    pub open spec fn after_set_paused(self, paused: bool) -> EnvView {
        self.admin_asked().with_config(Config { paused, ..self.config }).storing(
            DataKey::Paused,
            Value::Flag(paused),
        ).told(
            if paused {
                Event::PoolPaused
            } else {
                Event::PoolUnpaused
            },
        )
    }
}

} // verus!
