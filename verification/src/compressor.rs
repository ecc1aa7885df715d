//! The compressor relay: what a phrase asks of it, and what is said about it.

use vstd::prelude::*;
use crate::phrases::{
    compressor_in, names_compressor, names_status, names_switch_off, names_switch_on, names_toggle,
    status_in, switch_off_in, switch_on_in, toggle_in,
};
use crate::protocol::{speech, Reply, ReplyView, CTRL_NONE};
use crate::speech::{fold_text, folded};
use crate::text::{begins_with, occurs, occurs_at, opt_text, same, trim, trimmed};

verus! {

/// What the relay can be asked.
#[derive(Clone, Copy, PartialEq, Eq, Structural)]
pub enum RelayAction {
    On,
    Off,
    Toggle,
    Status,
}

impl RelayAction {
    /// The name of the action in an address.
    pub open spec fn spec_name(self) -> Seq<char> {
        match self {
            RelayAction::On => "on"@,
            RelayAction::Off => "off"@,
            RelayAction::Toggle => "toggle"@,
            RelayAction::Status => "status"@,
        }
    }

    /// The name of the action in an address.
    pub fn name(&self) -> (r: &'static str)
        ensures
            r@ == self.spec_name(),
    {
        match self {
            RelayAction::On => "on",
            RelayAction::Off => "off",
            RelayAction::Toggle => "toggle",
            RelayAction::Status => "status",
        }
    }
}

/// The action that a lowered phrase asks for. The words for switching off come first, so a
/// phrase with both switches off.
pub open spec fn relay_asked(low: Seq<char>) -> Option<RelayAction> {
    if !compressor_in(low) {
        None
    } else if switch_off_in(low) {
        Some(RelayAction::Off)
    } else if switch_on_in(low) {
        Some(RelayAction::On)
    } else if toggle_in(low) {
        Some(RelayAction::Toggle)
    } else if status_in(low) {
        Some(RelayAction::Status)
    } else {
        None
    }
}

/// The action that a lowered phrase asks of the relay at `host`.
pub open spec fn fast_path(host: Seq<char>, low: Seq<char>) -> Option<RelayAction> {
    if host.len() == 0 {
        None
    } else {
        relay_asked(low)
    }
}

/// The action that a lowered phrase asks for; none without a configured host, and none where
/// the compressor is only mentioned.
pub fn compressor_fast_path(host: &str, low: &str) -> (r: Option<RelayAction>)
    ensures
        r == (if host@.len() == 0 {
            None
        } else {
            relay_asked(low@)
        }),
        r == fast_path(host@, low@),
{
    if host.is_empty() || !names_compressor(low) {
        None
    } else if names_switch_off(low) {
        Some(RelayAction::Off)
    } else if names_switch_on(low) {
        Some(RelayAction::On)
    } else if names_toggle(low) {
        Some(RelayAction::Toggle)
    } else if names_status(low) {
        Some(RelayAction::Status)
    } else {
        None
    }
}

/// The action that the language model names; anything that it does not know is a question for
/// the state.
pub open spec fn relay_named(name: Seq<char>) -> RelayAction {
    if name == "on"@ {
        RelayAction::On
    } else if name == "off"@ {
        RelayAction::Off
    } else if name == "toggle"@ {
        RelayAction::Toggle
    } else {
        RelayAction::Status
    }
}

/// The action of a name in lower case.
pub fn named_action(name: &str) -> (r: RelayAction)
    ensures
        r == relay_named(name@),
{
    if same(name, "on") {
        RelayAction::On
    } else if same(name, "off") {
        RelayAction::Off
    } else if same(name, "toggle") {
        RelayAction::Toggle
    } else {
        RelayAction::Status
    }
}

/// Every action reads back from its name.
pub proof fn action_reads_back(a: RelayAction)
    ensures
        relay_named(a.spec_name()) == a,
{
    reveal_strlit("on");
    reveal_strlit("off");
    reveal_strlit("toggle");
    reveal_strlit("status");
    assert("on"@.len() != "off"@.len());
    assert("toggle"@[0] != "status"@[0]);
}

/// This computer is on the network of the compressor: no network is required, or the local
/// address begins with it. Without a local address it is not.
pub open spec fn on_network(net: Seq<char>, local: Seq<char>) -> bool {
    net.len() == 0 || occurs_at(local, net, 0)
}

/// True if this computer, with the address `local`, is on the network `net`.
pub fn on_compressor_network(net: &str, local: &str) -> (b: bool)
    ensures
        b == on_network(net@, local@),
{
    net.is_empty() || begins_with(local, net)
}

/// The address of a request to the relay.
pub open spec fn relay_url(host: Seq<char>, action: RelayAction) -> Seq<char> {
    "http://"@ + host + "/"@ + action.spec_name()
}

/// The address of a request to the relay.
pub fn compressor_url(host: &str, action: RelayAction) -> (r: String)
    ensures
        r@ == "http://"@ + host@ + "/"@ + action.spec_name(),
        r@ == relay_url(host@, action),
{
    let mut url: String = "http://".to_owned();
    url.append(host);
    url.append("/");
    url.append(action.name());
    url
}

/// The words about the relay that answered `state`.
pub open spec fn relay_words(russian: bool, state: Seq<char>) -> Seq<char> {
    if folded(trim(state)) == "on"@ {
        if russian {
            "Компрессор включён."@
        } else {
            "Compressor is on."@
        }
    } else {
        if russian {
            "Компрессор выключен."@
        } else {
            "Compressor is off."@
        }
    }
}

/// The reply to a relay command: off the network, without an answer, or with one.
pub open spec fn relay_reply(russian: bool, on_net: bool, state: Option<Seq<char>>) -> ReplyView {
    if !on_net {
        speech(
            CTRL_NONE,
            if russian {
                "Компрессор доступен только в сети сервиса."@
            } else {
                "The compressor is only available on the service network."@
            },
        )
    } else {
        match state {
            Some(s) => speech(CTRL_NONE, relay_words(russian, s)),
            None => speech(
                CTRL_NONE,
                if russian {
                    "Не удалось связаться с компрессором."@
                } else {
                    "Couldn't reach the compressor."@
                },
            ),
        }
    }
}

/// The reply to a relay command. `state` is what the relay answered, none where it could not be
/// reached.
pub fn compressor_action(russian: bool, on_net: bool, state: Option<String>) -> (r: Reply)
    ensures
        r@ == relay_reply(russian, on_net, opt_text(state)),
{
    if !on_net {
        return Reply::say_in(
            CTRL_NONE,
            russian,
            "Компрессор доступен только в сети сервиса.",
            "The compressor is only available on the service network.",
        );
    }
    match state {
        Some(s) => {
            let s: String = trimmed(s.as_str());
            let low: String = fold_text(s.as_str());
            if same(low.as_str(), "on") {
                Reply::say_in(CTRL_NONE, russian, "Компрессор включён.", "Compressor is on.")
            } else {
                Reply::say_in(CTRL_NONE, russian, "Компрессор выключен.", "Compressor is off.")
            }
        },
        None => Reply::say_in(
            CTRL_NONE,
            russian,
            "Не удалось связаться с компрессором.",
            "Couldn't reach the compressor.",
        ),
    }
}

// ---------------------------------------------------------------- laws

/// A phrase that names the compressor and a word for switching off switches it off, whatever else
/// it says; one with a word for switching on, and none for off, switches it on; then come toggling
/// and the state. A phrase that does not name the compressor asks nothing of it, and neither does
/// one that only names it.
pub proof fn compressor_does_what_is_asked(low: Seq<char>)
    ensures
        ({
            let named = occurs(low, "компрессор"@) || occurs(low, "compressor"@);
            let off = switch_off_in(low);
            let on = switch_on_in(low);
            let toggle = toggle_in(low);
            let state = status_in(low);
            &&& !named ==> relay_asked(low) is None
            &&& named && off ==> relay_asked(low) == Some(RelayAction::Off)
            &&& named && on && !off ==> relay_asked(low) == Some(RelayAction::On)
            &&& named && toggle && !on && !off ==> relay_asked(low) == Some(RelayAction::Toggle)
            &&& named && state && !toggle && !on && !off ==> relay_asked(low) == Some(
                RelayAction::Status,
            )
            &&& !state && !toggle && !on && !off ==> relay_asked(low) is None
        }),
{
}

/// What the model calls an action is that action; anything else is a question for the state.
pub proof fn model_names_the_action(name: Seq<char>)
    ensures
        relay_named("on"@) == RelayAction::On,
        relay_named("off"@) == RelayAction::Off,
        relay_named("toggle"@) == RelayAction::Toggle,
        relay_named("status"@) == RelayAction::Status,
        name != "on"@ && name != "off"@ && name != "toggle"@ ==> relay_named(name)
            == RelayAction::Status,
        RelayAction::On.spec_name() == "on"@ && RelayAction::Off.spec_name() == "off"@,
        RelayAction::Toggle.spec_name() == "toggle"@ && RelayAction::Status.spec_name()
            == "status"@,
{
    action_reads_back(RelayAction::On);
    action_reads_back(RelayAction::Off);
    action_reads_back(RelayAction::Toggle);
    action_reads_back(RelayAction::Status);
}

/// What is said about the relay is what it answered: on exactly where the answer is `on`, in any
/// case and with white space around it. Off the network, and without an answer, it is said so.
pub proof fn relay_state_is_told(state: Seq<char>, net: Seq<char>, local: Seq<char>)
    ensures
        folded(trim(state)) == "on"@ ==> relay_reply(true, true, Some(state)).words == Some(
            "Компрессор включён."@,
        ) && relay_reply(false, true, Some(state)).words == Some("Compressor is on."@),
        folded(trim(state)) != "on"@ ==> relay_reply(true, true, Some(state)).words == Some(
            "Компрессор выключен."@,
        ) && relay_reply(false, true, Some(state)).words == Some("Compressor is off."@),
        relay_reply(true, true, None).words == Some("Не удалось связаться с компрессором."@),
        relay_reply(false, true, None).words == Some("Couldn't reach the compressor."@),
        relay_reply(true, false, Some(state)).words == Some(
            "Компрессор доступен только в сети сервиса."@,
        ),
        relay_reply(false, false, Some(state)).words == Some(
            "The compressor is only available on the service network."@,
        ),
        forall|russian: bool, on: bool, s: Option<Seq<char>>|
            (#[trigger] relay_reply(russian, on, s)).control == 0xFF,
        on_network(net, net + local),
        on_network(Seq::empty(), local),
        net.len() > local.len() ==> !on_network(net, local),
        net.len() <= local.len() && local.take(net.len() as int) != net ==> !on_network(net, local),
{
    assert((net + local).subrange(0, net.len() as int) =~= net);
    if net.len() <= local.len() {
        assert(local.subrange(0, net.len() as int) =~= local.take(net.len() as int));
    }
}

/// Without a relay nothing is asked of it; with one, what the phrase asks. Each action has an
/// address of its own at the host of the relay.
pub proof fn relay_is_asked_at_its_host(host: Seq<char>, low: Seq<char>)
    ensures
        host.len() == 0 ==> fast_path(host, low) is None,
        host.len() > 0 ==> fast_path(host, low) == relay_asked(low),
        relay_url(host, RelayAction::On) == "http://"@ + host + "/"@ + "on"@,
        relay_url(host, RelayAction::Off) == "http://"@ + host + "/"@ + "off"@,
        relay_url(host, RelayAction::Toggle) == "http://"@ + host + "/"@ + "toggle"@,
        relay_url(host, RelayAction::Status) == "http://"@ + host + "/"@ + "status"@,
{
}

} // verus!
