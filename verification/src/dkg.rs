//! The epochs of the distributed key generation: who may start an
//! exchange of keys, and when.

use vstd::prelude::*;

verus! {

/// Nanoseconds in a second.
pub const NANOS_PER_SECOND: u64 = 1_000_000_000;

/// Why a request was refused for want of rights.
#[derive(Debug, Clone, Copy, PartialEq, Eq, Structural)]
pub enum AdminError {
    /// The sender is not the admin.
    NotAdmin,
}

/// Why a request to the contract was refused.
#[derive(Debug, Clone, Copy, PartialEq, Eq, Structural)]
pub enum ContractError {
    Admin(AdminError),
    /// The key generation was initialised before.
    AlreadyInitialised,
    /// An exchange of keys is under way.
    CantReshareDuringExchange,
}

/// The phase of an epoch.
#[derive(Debug, Clone, Copy, PartialEq, Eq, Structural)]
pub enum EpochState {
    WaitingInitialisation,
    PublicKeySubmission { resharing: bool },
    DealingExchange { resharing: bool },
    VerificationKeySubmission { resharing: bool },
    VerificationKeyValidation { resharing: bool },
    VerificationKeyFinalization { resharing: bool },
    /// The keys are in use; no exchange is under way.
    InProgress,
}

impl EpochState {
    /// Whether the keys are in use.
    pub fn is_in_progress(&self) -> (in_progress: bool)
        ensures
            in_progress == (*self is InProgress),
    {
        match self {
            EpochState::InProgress => true,
            _ => false,
        }
    }
}

/// How long each phase lasts, in seconds.
#[derive(Debug, Clone, Copy, PartialEq, Eq, Structural)]
pub struct TimeConfiguration {
    pub public_key_submission_time_secs: u64,
    pub dealing_exchange_time_secs: u64,
    pub verification_key_submission_time_secs: u64,
    pub verification_key_validation_time_secs: u64,
    pub verification_key_finalization_time_secs: u64,
    pub in_progress_time_secs: u64,
}

impl Default for TimeConfiguration {
    fn default() -> (configuration: TimeConfiguration)
        ensures
            configuration.public_key_submission_time_secs == 300,
            configuration.dealing_exchange_time_secs == 300,
            configuration.verification_key_submission_time_secs == 300,
            configuration.verification_key_validation_time_secs == 60,
            configuration.verification_key_finalization_time_secs == 60,
            configuration.in_progress_time_secs == 1_209_600,
    {
        TimeConfiguration {
            public_key_submission_time_secs: 300,
            dealing_exchange_time_secs: 300,
            verification_key_submission_time_secs: 300,
            verification_key_validation_time_secs: 60,
            verification_key_finalization_time_secs: 60,
            in_progress_time_secs: 1_209_600,
        }
    }
}

/// How many seconds a phase lasts; the wait for initialisation has no end.
pub open spec fn phase_seconds(state: EpochState, configuration: TimeConfiguration) -> Option<u64> {
    match state {
        EpochState::WaitingInitialisation => None,
        EpochState::PublicKeySubmission { .. } => Some(
            configuration.public_key_submission_time_secs,
        ),
        EpochState::DealingExchange { .. } => Some(configuration.dealing_exchange_time_secs),
        EpochState::VerificationKeySubmission { .. } => Some(
            configuration.verification_key_submission_time_secs,
        ),
        EpochState::VerificationKeyValidation { .. } => Some(
            configuration.verification_key_validation_time_secs,
        ),
        EpochState::VerificationKeyFinalization { .. } => Some(
            configuration.verification_key_finalization_time_secs,
        ),
        EpochState::InProgress => Some(configuration.in_progress_time_secs),
    }
}

/// The time, in nanoseconds, at which a phase that starts at `now_nanos` ends.
pub open spec fn phase_deadline(
    state: EpochState,
    configuration: TimeConfiguration,
    now_nanos: u64,
) -> Option<int> {
    match phase_seconds(state, configuration) {
        Some(seconds) => Some(now_nanos + seconds * NANOS_PER_SECOND),
        None => None,
    }
}

/// The phase `state`, started at `now_nanos`, ends at a time that a
/// timestamp can hold. The wait for initialisation has no end and always fits.
pub open spec fn deadline_fits(
    state: EpochState,
    configuration: TimeConfiguration,
    now_nanos: u64,
) -> bool {
    match phase_deadline(state, configuration, now_nanos) {
        Some(deadline) => deadline <= u64::MAX,
        None => true,
    }
}

/// Whether the phase `state`, started at `now_nanos`, ends within the range of a timestamp.
pub fn deadline_fits_at(state: EpochState, configuration: &TimeConfiguration, now_nanos: u64) -> (fit:
    bool)
    ensures
        fit == deadline_fits(state, *configuration, now_nanos),
{
    match state {
        EpochState::WaitingInitialisation => true,
        EpochState::PublicKeySubmission { .. } => phase_fits(
            configuration.public_key_submission_time_secs,
            now_nanos,
        ),
        EpochState::DealingExchange { .. } => phase_fits(
            configuration.dealing_exchange_time_secs,
            now_nanos,
        ),
        EpochState::VerificationKeySubmission { .. } => phase_fits(
            configuration.verification_key_submission_time_secs,
            now_nanos,
        ),
        EpochState::VerificationKeyValidation { .. } => phase_fits(
            configuration.verification_key_validation_time_secs,
            now_nanos,
        ),
        EpochState::VerificationKeyFinalization { .. } => phase_fits(
            configuration.verification_key_finalization_time_secs,
            now_nanos,
        ),
        EpochState::InProgress => phase_fits(configuration.in_progress_time_secs, now_nanos),
    }
}

/// Whether a phase of `seconds` that starts at `now_nanos` ends within the range of a timestamp.
fn phase_fits(seconds: u64, now_nanos: u64) -> (fit: bool)
    ensures
        fit == (now_nanos + seconds * NANOS_PER_SECOND <= u64::MAX),
{
    match seconds.checked_mul(NANOS_PER_SECOND) {
        Some(nanos) => now_nanos.checked_add(nanos).is_some(),
        None => false,
    }
}

/// An epoch of the key generation.
#[derive(Debug, Clone, Copy, PartialEq, Eq, Structural)]
pub struct Epoch {
    pub state: EpochState,
    pub epoch_id: u64,
    pub time_configuration: TimeConfiguration,
    /// When the current phase ends, in nanoseconds.
    pub deadline: Option<u64>,
}

impl Epoch {
    /// The epoch `epoch_id` in phase `state`, which starts at `current_timestamp`.
    pub fn new(
        state: EpochState,
        epoch_id: u64,
        time_configuration: TimeConfiguration,
        current_timestamp: u64,
    ) -> (epoch: Epoch)
        requires
            deadline_fits(state, time_configuration, current_timestamp),
        ensures
            epoch.state == state,
            epoch.epoch_id == epoch_id,
            epoch.time_configuration == time_configuration,
            epoch.deadline is Some <==> phase_deadline(
                state,
                time_configuration,
                current_timestamp,
            ) is Some,
            epoch.deadline is Some ==> epoch.deadline.unwrap() == phase_deadline(
                state,
                time_configuration,
                current_timestamp,
            ).unwrap(),
    {
        let seconds = match state {
            EpochState::WaitingInitialisation => None,
            EpochState::PublicKeySubmission { .. } => Some(
                time_configuration.public_key_submission_time_secs,
            ),
            EpochState::DealingExchange { .. } => Some(time_configuration.dealing_exchange_time_secs),
            EpochState::VerificationKeySubmission { .. } => Some(
                time_configuration.verification_key_submission_time_secs,
            ),
            EpochState::VerificationKeyValidation { .. } => Some(
                time_configuration.verification_key_validation_time_secs,
            ),
            EpochState::VerificationKeyFinalization { .. } => Some(
                time_configuration.verification_key_finalization_time_secs,
            ),
            EpochState::InProgress => Some(time_configuration.in_progress_time_secs),
        };
        let deadline = match seconds {
            Some(seconds) => Some(current_timestamp + seconds * NANOS_PER_SECOND),
            None => None,
        };
        Epoch { state, epoch_id, time_configuration, deadline }
    }
}

/// What the contract stores of the key generation.
#[derive(Debug, Clone, PartialEq, Eq)]
pub struct DkgState {
    /// The address that may start and reset the key generation.
    pub admin: Option<String>,
    pub current_epoch: Epoch,
    /// How many dealers must take part; set once the dealers are known.
    pub threshold: Option<u64>,
}

/// Whether `sender` is the admin.
pub open spec fn is_admin(admin: Option<String>, sender: Seq<char>) -> bool {
    admin is Some && admin.unwrap()@ == sender
}

impl DkgState {
    /// A contract that waits for its initialisation.
    pub fn new(admin: String, time_configuration: TimeConfiguration) -> (state: DkgState)
        ensures
            state.admin == Some(admin),
            state.threshold is None,
            state.current_epoch == (Epoch {
                state: EpochState::WaitingInitialisation,
                epoch_id: 0,
                time_configuration,
                deadline: None,
            }),
    {
        DkgState {
            admin: Some(admin),
            current_epoch: Epoch {
                state: EpochState::WaitingInitialisation,
                epoch_id: 0,
                time_configuration,
                deadline: None,
            },
            threshold: None,
        }
    }

    /// Fails unless `sender` is the admin.
    pub fn assert_admin(&self, sender: &str) -> (res: Result<(), ContractError>)
        ensures
            res is Ok <==> is_admin(self.admin, sender@),
            res is Err ==> res->Err_0 == ContractError::Admin(AdminError::NotAdmin),
    {
        match &self.admin {
            Some(admin) => {
                if crate::bytes::text_equal(admin.as_str(), sender) {
                    Ok(())
                } else {
                    Err(ContractError::Admin(AdminError::NotAdmin))
                }
            },
            None => Err(ContractError::Admin(AdminError::NotAdmin)),
        }
    }
}

/// Forgets what belongs to the exchange that is over: the threshold.
/// Dealings and dealer details are kept per epoch and stay.
pub fn reset_dkg_state(state: &mut DkgState) -> (res: Result<(), ContractError>)
    ensures
        res is Ok,
        final(state).threshold is None,
        final(state).admin == old(state).admin,
        final(state).current_epoch == old(state).current_epoch,
{
    state.threshold = None;
    Ok(())
}

/// The end of the first key submission can be computed, where
/// `try_initiate_dkg` gets as far as computing it: for the admin, while the
/// contract waits for its initialisation.
pub open spec fn initiation_fits(state: DkgState, block_time: u64, sender: Seq<char>) -> bool {
    is_admin(state.admin, sender) && state.current_epoch.state is WaitingInitialisation
        ==> deadline_fits(
        EpochState::PublicKeySubmission { resharing: false },
        state.current_epoch.time_configuration,
        block_time,
    )
}

/// The number of the next epoch and the end of its key submission can be
/// computed, where a reset or a resharing gets as far as computing them:
/// for the admin, while the keys are in use.
pub open spec fn next_exchange_fits(state: DkgState, block_time: u64, sender: Seq<char>) -> bool {
    is_admin(state.admin, sender) && state.current_epoch.state is InProgress ==> {
        &&& state.current_epoch.epoch_id < u64::MAX
        &&& deadline_fits(
            EpochState::PublicKeySubmission { resharing: false },
            state.current_epoch.time_configuration,
            block_time,
        )
    }
}

/// Whether `try_initiate_dkg` can be called with these arguments.
pub fn initiation_fits_at(state: &DkgState, block_time: u64, sender: &str) -> (fits: bool)
    ensures
        fits == initiation_fits(*state, block_time, sender@),
{
    if state.assert_admin(sender).is_err() {
        return true;
    }
    match state.current_epoch.state {
        EpochState::WaitingInitialisation => deadline_fits_at(
            EpochState::PublicKeySubmission { resharing: false },
            &state.current_epoch.time_configuration,
            block_time,
        ),
        _ => true,
    }
}

/// Whether `try_trigger_reset` and `try_trigger_resharing` can be called with these arguments.
pub fn next_exchange_fits_at(state: &DkgState, block_time: u64, sender: &str) -> (fits: bool)
    ensures
        fits == next_exchange_fits(*state, block_time, sender@),
{
    if state.assert_admin(sender).is_err() {
        return true;
    }
    if !state.current_epoch.state.is_in_progress() {
        return true;
    }
    state.current_epoch.epoch_id < u64::MAX && deadline_fits_at(
        EpochState::PublicKeySubmission { resharing: false },
        &state.current_epoch.time_configuration,
        block_time,
    )
}

/// Starts the first exchange of keys. Only the admin may do so, and only once.
pub fn try_initiate_dkg(state: &mut DkgState, block_time: u64, sender: &str) -> (res: Result<
    (),
    ContractError,
>)
    requires
        initiation_fits(*old(state), block_time, sender@),
    ensures
        final(state).admin == old(state).admin,
        final(state).threshold == old(state).threshold,
        !is_admin(old(state).admin, sender@) ==> res == Err::<(), ContractError>(
            ContractError::Admin(AdminError::NotAdmin),
        ),
        is_admin(old(state).admin, sender@)
            && !(old(state).current_epoch.state is WaitingInitialisation) ==> res == Err::<(),
            ContractError>(
            ContractError::AlreadyInitialised,
        ),
        is_admin(old(state).admin, sender@)
            && old(state).current_epoch.state is WaitingInitialisation ==> res is Ok,
        res is Err ==> final(state).current_epoch == old(state).current_epoch,
        res is Ok ==> final(state).current_epoch == (Epoch {
            state: EpochState::PublicKeySubmission { resharing: false },
            epoch_id: 0,
            time_configuration: old(state).current_epoch.time_configuration,
            deadline: Some(
                (block_time + old(state).current_epoch.time_configuration.public_key_submission_time_secs
                    * NANOS_PER_SECOND) as u64,
            ),
        }),
{
    match state.assert_admin(sender) {
        Err(err) => {
            return Err(err);
        },
        Ok(()) => {},
    }
    let epoch = state.current_epoch;
    match epoch.state {
        EpochState::WaitingInitialisation => {},
        _ => {
            return Err(ContractError::AlreadyInitialised);
        },
    }
    let initial_state = EpochState::PublicKeySubmission { resharing: false };
    let initial_epoch = Epoch::new(initial_state, 0, epoch.time_configuration, block_time);
    state.current_epoch = initial_epoch;
    Ok(())
}

/// The epoch that follows `current` when an exchange is started anew at `block_time`.
pub open spec fn next_exchange(current: Epoch, resharing: bool, block_time: u64) -> Epoch {
    Epoch {
        state: EpochState::PublicKeySubmission { resharing },
        epoch_id: (current.epoch_id + 1) as u64,
        time_configuration: current.time_configuration,
        deadline: Some(
            (block_time + current.time_configuration.public_key_submission_time_secs
                * NANOS_PER_SECOND) as u64,
        ),
    }
}

/// Starts the next epoch with a fresh exchange of keys.
fn start_next_exchange(
    state: &mut DkgState,
    resharing: bool,
    block_time: u64,
    sender: &str,
) -> (res: Result<(), ContractError>)
    requires
        next_exchange_fits(*old(state), block_time, sender@),
    ensures
        final(state).admin == old(state).admin,
        !is_admin(old(state).admin, sender@) ==> res == Err::<(), ContractError>(
            ContractError::Admin(AdminError::NotAdmin),
        ),
        is_admin(old(state).admin, sender@) && !(old(state).current_epoch.state is InProgress)
            ==> res == Err::<(), ContractError>(ContractError::CantReshareDuringExchange),
        is_admin(old(state).admin, sender@) && old(state).current_epoch.state is InProgress
            ==> res is Ok,
        res is Err ==> final(state).current_epoch == old(state).current_epoch
            && final(state).threshold == old(state).threshold,
        res is Ok ==> final(state).threshold is None && final(state).current_epoch
            == next_exchange(old(state).current_epoch, resharing, block_time),
{
    match state.assert_admin(sender) {
        Err(err) => {
            return Err(err);
        },
        Ok(()) => {},
    }
    let current_epoch = state.current_epoch;
    if !current_epoch.state.is_in_progress() {
        return Err(ContractError::CantReshareDuringExchange);
    }
    let next_epoch = Epoch::new(
        EpochState::PublicKeySubmission { resharing },
        current_epoch.epoch_id + 1,
        current_epoch.time_configuration,
        block_time,
    );
    state.current_epoch = next_epoch;
    reset_dkg_state(state)
}

/// Resets the key generation: the next epoch starts with an exchange
/// among new dealers. Only the admin may do so, and only while no exchange
/// is under way.
pub fn try_trigger_reset(state: &mut DkgState, block_time: u64, sender: &str) -> (res: Result<
    (),
    ContractError,
>)
    requires
        next_exchange_fits(*old(state), block_time, sender@),
    ensures
        final(state).admin == old(state).admin,
        !is_admin(old(state).admin, sender@) ==> res == Err::<(), ContractError>(
            ContractError::Admin(AdminError::NotAdmin),
        ),
        is_admin(old(state).admin, sender@) && !(old(state).current_epoch.state is InProgress)
            ==> res == Err::<(), ContractError>(ContractError::CantReshareDuringExchange),
        is_admin(old(state).admin, sender@) && old(state).current_epoch.state is InProgress
            ==> res is Ok,
        res is Err ==> final(state).current_epoch == old(state).current_epoch
            && final(state).threshold == old(state).threshold,
        res is Ok ==> final(state).threshold is None && final(state).current_epoch
            == next_exchange(old(state).current_epoch, false, block_time),
{
    start_next_exchange(state, false, block_time, sender)
}

/// Starts a resharing: the next epoch starts with an exchange that hands
/// the existing key on. Only the admin may do so, and only while no
/// exchange is under way.
pub fn try_trigger_resharing(state: &mut DkgState, block_time: u64, sender: &str) -> (res: Result<
    (),
    ContractError,
>)
    requires
        next_exchange_fits(*old(state), block_time, sender@),
    ensures
        final(state).admin == old(state).admin,
        !is_admin(old(state).admin, sender@) ==> res == Err::<(), ContractError>(
            ContractError::Admin(AdminError::NotAdmin),
        ),
        is_admin(old(state).admin, sender@) && !(old(state).current_epoch.state is InProgress)
            ==> res == Err::<(), ContractError>(ContractError::CantReshareDuringExchange),
        is_admin(old(state).admin, sender@) && old(state).current_epoch.state is InProgress
            ==> res is Ok,
        res is Err ==> final(state).current_epoch == old(state).current_epoch
            && final(state).threshold == old(state).threshold,
        res is Ok ==> final(state).threshold is None && final(state).current_epoch
            == next_exchange(old(state).current_epoch, true, block_time),
{
    start_next_exchange(state, true, block_time, sender)
}

} // verus!
