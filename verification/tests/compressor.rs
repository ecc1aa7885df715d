use server_voice_s3r::compressor::{
    compressor_action, compressor_fast_path, compressor_url, named_action, on_compressor_network,
    RelayAction,
};
use server_voice_s3r::protocol::CTRL_NONE;

fn words(russian: bool, on_net: bool, state: Option<&str>) -> String {
    let r = compressor_action(russian, on_net, state.map(|s| s.to_string()));
    assert_eq!(r.control, CTRL_NONE);
    r.words.unwrap()
}

#[test]
fn relay_commands() {
    let host = "10.0.0.1";
    assert!(compressor_fast_path(host, "включи компрессор") == Some(RelayAction::On));
    assert!(compressor_fast_path(host, "выключи компрессор") == Some(RelayAction::Off));
    assert!(compressor_fast_path(host, "turn on or turn off the compressor") == Some(RelayAction::Off));
    assert!(compressor_fast_path(host, "toggle compressor") == Some(RelayAction::Toggle));
    assert!(compressor_fast_path(host, "статус компрессора") == Some(RelayAction::Status));
    assert!(compressor_fast_path(host, "компрессор") == None);
    assert!(compressor_fast_path(host, "включи свет") == None);
    assert!(compressor_fast_path("", "включи компрессор") == None);
}

#[test]
fn relay_names_read_back() {
    for a in [RelayAction::On, RelayAction::Off, RelayAction::Toggle, RelayAction::Status] {
        assert!(named_action(a.name()) == a);
    }
    assert!(named_action("explode") == RelayAction::Status);
    assert_eq!(compressor_url("plc", RelayAction::Off), "http://plc/off");
}

#[test]
fn relay_network_gate() {
    assert!(on_compressor_network("192.168.3.", "192.168.3.7"));
    assert!(!on_compressor_network("192.168.3.", "192.168.30.7"));
    assert!(!on_compressor_network("192.168.3.", ""));
    assert!(on_compressor_network("", ""));
}

#[test]
fn relay_replies() {
    assert_eq!(words(true, true, Some(" on\n")), "Компрессор включён.");
    assert_eq!(words(false, true, Some("ON")), "Compressor is on.");
    assert_eq!(words(true, true, Some("OFF")), "Компрессор выключен.");
    assert_eq!(words(false, true, Some("")), "Compressor is off.");
    assert_eq!(words(true, true, None), "Не удалось связаться с компрессором.");
    assert_eq!(words(false, true, None), "Couldn't reach the compressor.");
    assert_eq!(words(true, false, Some("ON")), "Компрессор доступен только в сети сервиса.");
    assert_eq!(words(false, false, None), "The compressor is only available on the service network.");
}
