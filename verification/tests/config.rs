use geolocate_lib::config::{
    editor_or_default, open_configuration_file_with_editor, operate_on_config_file, ApiKeyStore,
    ConfigOperation, EditorStep, LoadFailure,
};
use geolocate_lib::error::{GeolocationBuildError, MissingTokenError, TokenWording};
use geolocate_lib::parser::ConfigArguments;
use geolocate_lib::provider::Provider;

fn pair(key: &str, value: &str) -> (String, String) {
    (key.to_string(), value.to_string())
}

fn not_specified(provider: Provider) -> MissingTokenError {
    MissingTokenError { provider, wording: TokenWording::NotSpecified }
}

fn not_set(provider: Provider) -> MissingTokenError {
    MissingTokenError { provider, wording: TokenWording::NotSet }
}

#[test]
fn empty_store_has_no_token() {
    let store = ApiKeyStore::new();
    assert_eq!(store.get("ip2location"), None);
    assert_eq!(
        store.get_provider_token(&Provider::Ip2Location),
        Err(not_specified(Provider::Ip2Location))
    );
    assert_eq!(store.ip2location(), Err(not_specified(Provider::Ip2Location)));
    assert_eq!(store.ipgeolocation(), Err(not_specified(Provider::IpGeolocation)));
    assert_eq!(store.ip2location_token(), Err(not_set(Provider::Ip2Location)));
    assert_eq!(store.ipgeolocation_token(), Err(not_set(Provider::IpGeolocation)));
    assert_eq!(store.key_value_pairs(), vec![]);
    assert_eq!(ApiKeyStore::default().key_value_pairs(), vec![]);
}

#[test]
fn each_getter_reports_a_missing_token_in_its_own_words() {
    let mut store = ApiKeyStore::new();
    assert_eq!(
        store.ip2location().unwrap_err().message(),
        "No token for ip2location specified. Set it with the 'config' subcommand."
    );
    assert_eq!(
        store.ipgeolocation().unwrap_err().message(),
        "No token for ipgeolocation specified. Set it with the 'config' subcommand."
    );
    assert_eq!(
        store.get_provider_token(&Provider::IpGeolocation).unwrap_err().message(),
        "No token for ipgeolocation specified. Set it with the 'config' subcommand."
    );
    assert_eq!(
        store.ip2location_token().unwrap_err().message(),
        "Token for provider 'ip2location' is not set. Set it with the config command"
    );
    assert_eq!(
        store.ipgeolocation_token().unwrap_err().message(),
        "Token for provider 'ipgeolocation' is not set. Set it with the config command"
    );
    // The token of the other provider makes no difference.
    store.set_ip2location_token("abc".to_string());
    assert_eq!(
        store.ipgeolocation_token().unwrap_err().message(),
        "Token for provider 'ipgeolocation' is not set. Set it with the config command"
    );
    assert_eq!(store.ip2location_token(), Ok("abc"));
}

#[test]
fn tokens_are_stored_under_the_name_of_their_provider() {
    let mut store = ApiKeyStore::new();
    store.set_ip2location_token("abc".to_string());
    assert_eq!(store.ip2location(), Ok("abc"));
    assert_eq!(store.ip2location_token(), Ok("abc"));
    assert_eq!(store.get_provider_token(&Provider::Ip2Location), Ok("abc".to_string()));
    assert_eq!(store.get("ip2location"), Some(&"abc".to_string()));
    assert_eq!(store.ipgeolocation(), Err(not_specified(Provider::IpGeolocation)));
    store.set_ipgeolocation_token("xyz".to_string());
    assert_eq!(store.ipgeolocation(), Ok("xyz"));
    assert_eq!(store.ipgeolocation_token(), Ok("xyz"));
    assert_eq!(store.get_provider_token(&Provider::IpGeolocation), Ok("xyz".to_string()));
    assert_eq!(store.ip2location(), Ok("abc"));
    assert_eq!(
        store.key_value_pairs(),
        vec![pair("ip2location", "abc"), pair("ipgeolocation", "xyz")]
    );
}

#[test]
fn setting_a_token_again_replaces_it() {
    let mut store = ApiKeyStore::new();
    store.set_ip2location_token("old".to_string());
    store.set_ipgeolocation_token("other".to_string());
    store.set_ip2location_token("new".to_string());
    assert_eq!(store.ip2location(), Ok("new"));
    assert_eq!(store.ipgeolocation(), Ok("other"));
    assert_eq!(
        store.key_value_pairs(),
        vec![pair("ip2location", "new"), pair("ipgeolocation", "other")]
    );
}

#[test]
fn any_key_can_be_stored() {
    let mut store = ApiKeyStore::new();
    store.insert("custom".to_string(), "1".to_string());
    store.insert("".to_string(), "empty key".to_string());
    store.insert("custom".to_string(), "2".to_string());
    assert_eq!(store.get("custom"), Some(&"2".to_string()));
    assert_eq!(store.get(""), Some(&"empty key".to_string()));
    assert_eq!(store.get("Custom"), None);
    assert_eq!(store.key_value_pairs().len(), 2);
}

#[test]
fn store_from_pairs_keeps_the_later_of_two_equal_keys() {
    let store = ApiKeyStore::from_pairs(vec![
        pair("ip2location", "first"),
        pair("ipgeolocation", "xyz"),
        pair("ip2location", "second"),
    ]);
    assert_eq!(store.ip2location(), Ok("second"));
    assert_eq!(store.ipgeolocation(), Ok("xyz"));
    assert_eq!(store.key_value_pairs().len(), 2);
}

#[test]
fn clone_holds_the_same_tokens() {
    let mut store = ApiKeyStore::new();
    store.set_ip2location_token("abc".to_string());
    let copy = store.clone();
    store.set_ip2location_token("changed".to_string());
    assert_eq!(copy.ip2location(), Ok("abc"));
    assert_eq!(store.ip2location(), Ok("changed"));
}

#[test]
fn missing_token_message_names_the_provider() {
    assert_eq!(
        not_specified(Provider::Ip2Location).message(),
        "No token for ip2location specified. Set it with the 'config' subcommand."
    );
    assert_eq!(
        not_specified(Provider::IpGeolocation).message(),
        "No token for ipgeolocation specified. Set it with the 'config' subcommand."
    );
    assert_eq!(
        not_set(Provider::Ip2Location).message(),
        "Token for provider 'ip2location' is not set. Set it with the config command"
    );
    assert_eq!(
        not_set(Provider::IpGeolocation).message(),
        "Token for provider 'ipgeolocation' is not set. Set it with the config command"
    );
}

#[test]
fn store_is_read_from_toml() {
    let store =
        ApiKeyStore::from_toml("ip2location = \"abc\"\nipgeolocation = 'x y z'\n").unwrap();
    assert_eq!(store.ip2location(), Ok("abc"));
    assert_eq!(store.ipgeolocation(), Ok("x y z"));
    assert_eq!(
        store.key_value_pairs(),
        vec![pair("ip2location", "abc"), pair("ipgeolocation", "x y z")]
    );
    let store = ApiKeyStore::from_toml("").unwrap();
    assert_eq!(store.key_value_pairs(), vec![]);
    let store = ApiKeyStore::from_toml("\n  zeta = \"1\"\nalpha = \"2\"  \n\n").unwrap();
    assert_eq!(store.key_value_pairs(), vec![pair("alpha", "2"), pair("zeta", "1")]);
}

#[test]
fn bad_toml_is_refused() {
    for text in [
        "ip2location = ",
        "ip2location = 1",
        "ip2location = \"a\"\nip2location = \"b\"",
        "not toml at all",
        "[table]\nkey = \"value\"",
        "key = [\"a\"]",
    ] {
        match ApiKeyStore::from_toml(text) {
            Err(GeolocationBuildError::ConfigurationLoadError(cause)) => {
                assert!(!cause.is_empty(), "{:?}", text)
            }
            other => panic!("{:?}: {:?}", text, other.map(|store| store.key_value_pairs())),
        }
    }
}

#[test]
fn config_operation_prefers_show_then_edit_then_path() {
    let mut store = ApiKeyStore::new();
    store.set_ip2location_token("abc".to_string());
    let operation = |show, edit, print_path| {
        operate_on_config_file(ConfigArguments { show, edit, print_path }, &store)
    };
    let shown = ConfigOperation::Show(vec![pair("ip2location", "abc")]);
    assert_eq!(operation(true, false, false), shown);
    assert_eq!(operation(true, true, true), shown);
    assert_eq!(operation(false, true, false), ConfigOperation::Edit);
    assert_eq!(operation(false, true, true), ConfigOperation::Edit);
    assert_eq!(operation(false, false, true), ConfigOperation::PrintPath);
    assert_eq!(operation(false, false, false), ConfigOperation::Nothing);
}

#[test]
fn preferred_editor_is_the_named_one_or_nano() {
    assert_eq!(editor_or_default(Some("vim".to_string())), "vim");
    assert_eq!(editor_or_default(Some("code --wait".to_string())), "code --wait");
    assert_eq!(editor_or_default(None), "nano");
}

#[test]
fn editor_is_the_named_one_or_nano() {
    assert_eq!(
        open_configuration_file_with_editor(Some("vim".to_string()), Ok(())),
        EditorStep::Open { editor: "vim".to_string() }
    );
    assert_eq!(
        open_configuration_file_with_editor(None, Ok(())),
        EditorStep::Open { editor: "nano".to_string() }
    );
}

#[test]
fn bad_configuration_is_opened_and_then_reported() {
    assert_eq!(
        open_configuration_file_with_editor(
            None,
            Err(LoadFailure::BadTomlData("Bad TOML data".to_string()))
        ),
        EditorStep::OpenThenFail {
            editor: "nano".to_string(),
            error: GeolocationBuildError::ConfigurationLoadError("Bad TOML data".to_string()),
        }
    );
    assert_eq!(
        open_configuration_file_with_editor(
            Some("vim".to_string()),
            Err(LoadFailure::Other("permission denied".to_string()))
        ),
        EditorStep::Fail(GeolocationBuildError::ConfigurationLoadError(
            "permission denied".to_string()
        ))
    );
    assert_eq!(
        GeolocationBuildError::ConfigurationLoadError("permission denied".to_string())
            .message(),
        "permission denied"
    );
}
