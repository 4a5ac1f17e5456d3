use bws::simulation::registration::{
    Registration, RegistrationAttempt, RegistrationFailureReason,
};
use bws::simulation::teams::Teams;
use bws::simulation::TeamRepository;

#[test]
fn mod_team_should_be_registered_with_a_registration() {
    let mut teams = Teams::new();
    let registration = Registration {
        name: "TEST".to_owned(),
        ip_address: "TEST ADDRESS".to_owned(),
        port: 2643,
    };

    let result = teams.register(registration);

    assert_eq!(result, RegistrationAttempt::Success);
}

#[test]
fn mod_team_with_same_name_should_not_be_registered() {
    let mut teams = Teams::new();
    let first = Registration {
        name: "TEST".to_owned(),
        ip_address: "TEST ADDRESS".to_owned(),
        port: 2643,
    };
    let _ = teams.register(first);

    let second = Registration {
        name: "TEST".to_owned(),
        ip_address: "OTHER TEST ADDRESS".to_owned(),
        port: 2643,
    };
    let result = teams.register(second);

    assert_eq!(
        result,
        RegistrationAttempt::Failure(RegistrationFailureReason::NameTaken)
    );
}

#[test]
fn mod_team_with_same_ip_address_should_not_be_registered() {
    let mut teams = Teams::new();
    let first = Registration {
        name: "TEST".to_owned(),
        ip_address: "TEST ADDRESS".to_owned(),
        port: 2643,
    };
    let _ = teams.register(first);

    let second = Registration {
        name: "OTHER TEST".to_owned(),
        ip_address: "TEST ADDRESS".to_owned(),
        port: 2643,
    };
    let result = teams.register(second);

    assert_eq!(
        result,
        RegistrationAttempt::Failure(RegistrationFailureReason::IPAddressWithPortTaken)
    );
}

#[test]
fn model_team_should_be_registered_with_a_registration() {
    let mut teams = Teams::new();
    let registration = Registration {
        name: "TEST".to_owned(),
        ip_address: "TEST ADDRESS".to_owned(),
        port: 2643,
    };

    let result = teams.register(registration);

    assert_eq!(result, RegistrationAttempt::Success);
}

#[test]
fn model_team_with_same_name_should_not_be_registered() {
    let mut teams = Teams::new();
    let first = Registration {
        name: "TEST".to_owned(),
        ip_address: "TEST ADDRESS".to_owned(),
        port: 2643,
    };
    let _ = teams.register(first);

    let second = Registration {
        name: "TEST".to_owned(),
        ip_address: "OTHER TEST ADDRESS".to_owned(),
        port: 2643,
    };
    let result = teams.register(second);

    assert_eq!(
        result,
        RegistrationAttempt::Failure(RegistrationFailureReason::NameTaken)
    );
}

#[test]
fn model_team_with_same_ip_address_should_not_be_registered() {
    let mut teams = Teams::new();
    let first = Registration {
        name: "TEST".to_owned(),
        ip_address: "TEST ADDRESS".to_owned(),
        port: 2643,
    };
    let _ = teams.register(first);

    let second = Registration {
        name: "OTHER TEST".to_owned(),
        ip_address: "TEST ADDRESS".to_owned(),
        port: 2643,
    };
    let result = teams.register(second);

    assert_eq!(
        result,
        RegistrationAttempt::Failure(RegistrationFailureReason::IPAddressWithPortTaken)
    );
}
