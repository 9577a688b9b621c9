use cosmwasm_std::testing::{mock_env, mock_info};
use mixnet_core::dkg::{
    deadline_fits_at, initiation_fits_at, next_exchange_fits_at, reset_dkg_state, try_initiate_dkg,
    try_trigger_reset, try_trigger_resharing, AdminError, ContractError, DkgState, Epoch, EpochState,
    TimeConfiguration,
};

const ADMIN_ADDRESS: &str = "admin address";

fn init_contract() -> DkgState {
    DkgState::new(ADMIN_ADDRESS.to_string(), TimeConfiguration::default())
}

#[test]
fn initialising_dkg() {
    let mut deps = init_contract();
    let env = mock_env();

    let initial_epoch_info = deps.current_epoch;
    assert!(initial_epoch_info.deadline.is_none());

    // can only be executed by the admin
    let res = try_initiate_dkg(&mut deps, env.block.time.nanos(), mock_info("not an admin", &[]).sender.as_str())
        .unwrap_err();
    assert_eq!(ContractError::Admin(AdminError::NotAdmin {}), res);

    let res = try_initiate_dkg(&mut deps, env.block.time.nanos(), mock_info(ADMIN_ADDRESS, &[]).sender.as_str());
    assert!(res.is_ok());

    // can't be initialised more than once
    let res = try_initiate_dkg(&mut deps, env.block.time.nanos(), mock_info(ADMIN_ADDRESS, &[]).sender.as_str())
        .unwrap_err();
    assert_eq!(ContractError::AlreadyInitialised, res);

    // sets the correct epoch data
    let epoch = deps.current_epoch;
    assert_eq!(epoch.epoch_id, 0);
    assert_eq!(epoch.state, EpochState::PublicKeySubmission { resharing: false });
    assert_eq!(epoch.time_configuration, initial_epoch_info.time_configuration);
    assert_eq!(
        epoch.deadline.unwrap(),
        env.block.time.plus_seconds(epoch.time_configuration.public_key_submission_time_secs).nanos()
    );
}

#[test]
fn reset_state() {
    let mut deps = init_contract();
    deps.threshold = Some(42);
    let epoch = deps.current_epoch;

    reset_dkg_state(&mut deps).unwrap();

    assert!(deps.threshold.is_none());
    // what is kept per epoch stays as it is
    assert_eq!(deps.current_epoch, epoch);
    assert_eq!(deps.admin, Some(ADMIN_ADDRESS.to_string()));
}

#[test]
fn an_epoch_knows_when_its_phase_ends() {
    let configuration = TimeConfiguration {
        public_key_submission_time_secs: 1,
        dealing_exchange_time_secs: 2,
        verification_key_submission_time_secs: 3,
        verification_key_validation_time_secs: 4,
        verification_key_finalization_time_secs: 5,
        in_progress_time_secs: 6,
    };
    let second = 1_000_000_000u64;
    let cases = [
        (EpochState::WaitingInitialisation, None),
        (EpochState::PublicKeySubmission { resharing: true }, Some(100 + second)),
        (EpochState::DealingExchange { resharing: false }, Some(100 + 2 * second)),
        (EpochState::VerificationKeySubmission { resharing: false }, Some(100 + 3 * second)),
        (EpochState::VerificationKeyValidation { resharing: false }, Some(100 + 4 * second)),
        (EpochState::VerificationKeyFinalization { resharing: false }, Some(100 + 5 * second)),
        (EpochState::InProgress, Some(100 + 6 * second)),
    ];
    for (state, deadline) in cases {
        let epoch = Epoch::new(state, 7, configuration, 100);
        assert_eq!(epoch, Epoch { state, epoch_id: 7, time_configuration: configuration, deadline });
    }
    assert!(EpochState::InProgress.is_in_progress());
    assert!(!EpochState::DealingExchange { resharing: true }.is_in_progress());
    let defaults = TimeConfiguration::default();
    assert_eq!(defaults.public_key_submission_time_secs, 300);
    assert_eq!(defaults.in_progress_time_secs, 14 * 24 * 60 * 60);
}

#[test]
fn only_the_admin_is_admin() {
    let state = init_contract();
    assert_eq!(state.assert_admin(ADMIN_ADDRESS), Ok(()));
    assert_eq!(state.assert_admin("admin"), Err(ContractError::Admin(AdminError::NotAdmin)));
    assert_eq!(state.assert_admin(""), Err(ContractError::Admin(AdminError::NotAdmin)));
    let mut orphan = init_contract();
    orphan.admin = None;
    assert_eq!(orphan.assert_admin(ADMIN_ADDRESS), Err(ContractError::Admin(AdminError::NotAdmin)));
}

#[test]
fn a_reset_starts_the_next_epoch_without_resharing() {
    let env = mock_env();
    let now = env.block.time.nanos();
    let mut deps = init_contract();
    deps.threshold = Some(67);
    // while the exchange is under way nothing can be reset
    try_initiate_dkg(&mut deps, now, ADMIN_ADDRESS).unwrap();
    let during = deps.clone();
    assert_eq!(try_trigger_reset(&mut deps, now, ADMIN_ADDRESS), Err(ContractError::CantReshareDuringExchange));
    assert_eq!(deps, during);
    assert_eq!(try_trigger_reset(&mut deps, now, "someone"), Err(ContractError::Admin(AdminError::NotAdmin)));
    // the keys are in use
    deps.current_epoch = Epoch::new(EpochState::InProgress, 4, deps.current_epoch.time_configuration, now);
    assert_eq!(try_trigger_reset(&mut deps, now + 5, "someone"), Err(ContractError::Admin(AdminError::NotAdmin)));
    assert_eq!(deps.threshold, Some(67));
    assert_eq!(try_trigger_reset(&mut deps, now + 5, ADMIN_ADDRESS), Ok(()));
    assert_eq!(deps.threshold, None);
    assert_eq!(
        deps.current_epoch,
        Epoch {
            state: EpochState::PublicKeySubmission { resharing: false },
            epoch_id: 5,
            time_configuration: TimeConfiguration::default(),
            deadline: Some(now + 5 + 300 * 1_000_000_000),
        }
    );
}

#[test]
fn a_resharing_starts_the_next_epoch_with_resharing() {
    let env = mock_env();
    let now = env.block.time.nanos();
    let mut deps = init_contract();
    assert_eq!(try_trigger_resharing(&mut deps, now, ADMIN_ADDRESS), Err(ContractError::CantReshareDuringExchange));
    deps.current_epoch = Epoch::new(EpochState::InProgress, 0, deps.current_epoch.time_configuration, now);
    deps.threshold = Some(3);
    assert_eq!(try_trigger_resharing(&mut deps, now, "not an admin"), Err(ContractError::Admin(AdminError::NotAdmin)));
    assert_eq!(try_trigger_resharing(&mut deps, now, ADMIN_ADDRESS), Ok(()));
    assert_eq!(deps.threshold, None);
    assert_eq!(deps.current_epoch.state, EpochState::PublicKeySubmission { resharing: true });
    assert_eq!(deps.current_epoch.epoch_id, 1);
    assert_eq!(deps.current_epoch.deadline, Some(env.block.time.plus_seconds(300).nanos()));
}

#[test]
fn a_refused_request_is_answered_whatever_the_clock_says() {
    let late = u64::MAX - 5;
    let mut deps = init_contract();
    // the end of the key submission is beyond the range of a timestamp
    assert!(!deadline_fits_at(EpochState::PublicKeySubmission { resharing: false }, &deps.current_epoch.time_configuration, late));
    assert!(deadline_fits_at(EpochState::WaitingInitialisation, &deps.current_epoch.time_configuration, late));
    // who is no admin is refused before anything is computed
    assert!(initiation_fits_at(&deps, late, "someone"));
    assert_eq!(try_initiate_dkg(&mut deps, late, "someone"), Err(ContractError::Admin(AdminError::NotAdmin)));
    assert!(!initiation_fits_at(&deps, late, ADMIN_ADDRESS));
    // no exchange can be restarted while the contract waits: refused as well
    assert!(next_exchange_fits_at(&deps, late, ADMIN_ADDRESS));
    assert_eq!(try_trigger_reset(&mut deps, late, ADMIN_ADDRESS), Err(ContractError::CantReshareDuringExchange));
    assert_eq!(try_trigger_resharing(&mut deps, late, ADMIN_ADDRESS), Err(ContractError::CantReshareDuringExchange));
    // once initialised, a second initialisation is refused at any time
    try_initiate_dkg(&mut deps, 10, ADMIN_ADDRESS).unwrap();
    assert!(initiation_fits_at(&deps, late, ADMIN_ADDRESS));
    assert_eq!(try_initiate_dkg(&mut deps, late, ADMIN_ADDRESS), Err(ContractError::AlreadyInitialised));
}

#[test]
fn only_the_key_submission_has_to_fit() {
    let mut configuration = TimeConfiguration::default();
    // the keys stay in use for longer than a timestamp can tell
    configuration.in_progress_time_secs = u64::MAX;
    configuration.dealing_exchange_time_secs = u64::MAX;
    let mut deps = DkgState::new(ADMIN_ADDRESS.to_string(), configuration);
    deps.current_epoch =
        Epoch { state: EpochState::InProgress, epoch_id: 8, time_configuration: configuration, deadline: None };
    assert!(next_exchange_fits_at(&deps, 1_000, ADMIN_ADDRESS));
    assert_eq!(try_trigger_resharing(&mut deps, 1_000, ADMIN_ADDRESS), Ok(()));
    assert_eq!(deps.current_epoch.epoch_id, 9);
    assert_eq!(deps.current_epoch.deadline, Some(1_000 + 300 * 1_000_000_000));
    // the last epoch number has no successor
    deps.current_epoch =
        Epoch { state: EpochState::InProgress, epoch_id: u64::MAX, time_configuration: configuration, deadline: None };
    assert!(!next_exchange_fits_at(&deps, 1_000, ADMIN_ADDRESS));
    assert!(next_exchange_fits_at(&deps, 1_000, "someone"));
}
