//! The bytes that the device and the server exchange.

use vstd::prelude::*;
use crate::text::{opt_text, same};

verus! {

/// Header bit of a request: "button pressed, leave the current mode". The utterance that
/// comes with it is empty.
pub const HDR_TRANSCRIBE_EXIT: u8 = 0x80;

/// Control byte: no change.
pub const CTRL_NONE: u8 = 0xFF;

/// Control byte: enter speaker mode.
pub const CTRL_SPEAKER: u8 = 0xFE;

/// Control byte: play the reply, then record the next utterance with no wake word.
pub const CTRL_TRANSCRIBE: u8 = 0xFD;

/// Control byte: start a streaming transcription that the computer itself does.
pub const CTRL_STREAM_LOCAL: u8 = 0xFC;

/// Control byte: start a streaming transcription that a cloud service does.
pub const CTRL_STREAM_EXTERNAL: u8 = 0xFB;

/// Control bytes from here on set a volume and enter speaker mode.
pub const CTRL_VOLUME_AND_SPEAKER: u8 = 128;

/// The loudest volume.
pub const MAX_VOLUME: u8 = 100;

/// A shorter utterance (in bytes) is not answered.
pub const MIN_UTTERANCE: usize = 4000;

/// Port to which the device streams the microphone for transcription.
pub const TRANSCRIBE_STREAM_PORT: u16 = 9002;

/// Port from which the device plays radio or the sound of the computer.
pub const RADIO_STREAM_PORT: u16 = 9001;

// ---------------------------------------------------------------- control bytes

/// What a control byte tells the device to do.
pub enum Command {
    /// Nothing changes; wait for the wake word.
    Keep,
    /// Set the volume.
    Volume(u8),
    /// Enter speaker mode.
    Speaker,
    /// Set the volume and enter speaker mode.
    VolumeAndSpeaker(u8),
    /// Record the next utterance with no wake word.
    KeepListening,
    /// Stream the microphone, for transcription on the computer.
    StreamLocal,
    /// Stream the microphone, for transcription by a cloud service.
    StreamExternal,
}

impl Command {
    /// A volume is at most 100.
    pub open spec fn wf(self) -> bool {
        match self {
            Command::Volume(v) => v <= MAX_VOLUME,
            Command::VolumeAndSpeaker(v) => v <= MAX_VOLUME,
            _ => true,
        }
    }

    /// The control byte of the command.
    pub open spec fn spec_byte(self) -> u8 {
        match self {
            Command::Keep => CTRL_NONE,
            Command::Volume(v) => v,
            Command::Speaker => CTRL_SPEAKER,
            Command::VolumeAndSpeaker(v) => (CTRL_VOLUME_AND_SPEAKER + v) as u8,
            Command::KeepListening => CTRL_TRANSCRIBE,
            Command::StreamLocal => CTRL_STREAM_LOCAL,
            Command::StreamExternal => CTRL_STREAM_EXTERNAL,
        }
    }

    /// The control byte of the command.
    pub fn byte(&self) -> (b: u8)
        requires
            self.wf(),
        ensures
            b == self.spec_byte(),
    {
        match self {
            Command::Keep => CTRL_NONE,
            Command::Volume(v) => *v,
            Command::Speaker => CTRL_SPEAKER,
            Command::VolumeAndSpeaker(v) => CTRL_VOLUME_AND_SPEAKER + *v,
            Command::KeepListening => CTRL_TRANSCRIBE,
            Command::StreamLocal => CTRL_STREAM_LOCAL,
            Command::StreamExternal => CTRL_STREAM_EXTERNAL,
        }
    }
}

/// The command that a control byte means to the device.
pub open spec fn command_of(b: u8) -> Option<Command> {
    if b <= MAX_VOLUME {
        Some(Command::Volume(b))
    } else if CTRL_VOLUME_AND_SPEAKER <= b <= CTRL_VOLUME_AND_SPEAKER + MAX_VOLUME {
        Some(Command::VolumeAndSpeaker((b - CTRL_VOLUME_AND_SPEAKER) as u8))
    } else if b == CTRL_NONE {
        Some(Command::Keep)
    } else if b == CTRL_SPEAKER {
        Some(Command::Speaker)
    } else if b == CTRL_TRANSCRIBE {
        Some(Command::KeepListening)
    } else if b == CTRL_STREAM_LOCAL {
        Some(Command::StreamLocal)
    } else if b == CTRL_STREAM_EXTERNAL {
        Some(Command::StreamExternal)
    } else {
        None
    }
}

/// The device reads every command back from its control byte.
pub proof fn command_reads_back(c: Command)
    requires
        c.wf(),
    ensures
        command_of(c.spec_byte()) == Some(c),
{
}

/// No two commands share a control byte.
pub proof fn control_bytes_are_distinct(a: Command, b: Command)
    requires
        a.wf(),
        b.wf(),
        a.spec_byte() == b.spec_byte(),
    ensures
        a == b,
{
    command_reads_back(a);
    command_reads_back(b);
}

// ---------------------------------------------------------------- the request header

/// The first byte of a request.
#[derive(Clone, Copy)]
pub struct Header {
    /// The button was pressed: leave the current mode.
    pub exit: bool,
    /// Which wake word fired.
    pub persona: u8,
}

/// What the first byte of a request says: the high bit is the button, the low seven bits are
/// the persona.
pub open spec fn header_of(b: u8) -> Header {
    Header { exit: b >= HDR_TRANSCRIBE_EXIT, persona: b % HDR_TRANSCRIBE_EXIT }
}

/// The byte that says `h`.
pub open spec fn header_byte(h: Header) -> int {
    if h.exit {
        HDR_TRANSCRIBE_EXIT + h.persona
    } else {
        h.persona as int
    }
}

/// Decodes the first byte of a request.
pub fn decode_header(b: u8) -> (h: Header)
    ensures
        h == header_of(b),
{
    assert((b & 0x80 != 0) == (b >= 0x80)) by (bit_vector);
    assert(b & 0x7F == b % 0x80) by (bit_vector);
    Header { exit: b & HDR_TRANSCRIBE_EXIT != 0, persona: b & 0x7F }
}

/// Every persona below 128 reads back from a header, with and without the button.
pub proof fn header_reads_back(h: Header)
    requires
        h.persona < 0x80,
    ensures
        0 <= header_byte(h) < 256,
        header_of(header_byte(h) as u8) == h,
{
}

// ---------------------------------------------------------------- replies

/// What to send back to the device: a control byte, and words to be spoken after it.
pub struct Reply {
    pub control: u8,
    /// The words to be turned into sound; without them no sound is sent.
    pub words: Option<String>,
}

/// The value of a `Reply`.
#[verifier::ext_equal]
pub struct ReplyView {
    pub control: u8,
    pub words: Option<Seq<char>>,
}

impl View for Reply {
    type V = ReplyView;

    open spec fn view(&self) -> ReplyView {
        ReplyView { control: self.control, words: opt_text(self.words) }
    }
}

/// The value of an optional reply.
pub open spec fn reply_view(r: Option<Reply>) -> Option<ReplyView> {
    match r {
        Some(r) => Some(r@),
        None => None,
    }
}

/// A reply without words.
pub open spec fn silence(control: u8) -> ReplyView {
    ReplyView { control, words: None }
}

/// A reply with words.
pub open spec fn speech(control: u8, words: Seq<char>) -> ReplyView {
    ReplyView { control, words: Some(words) }
}

impl Reply {
    /// A reply without words.
    pub fn silent(control: u8) -> (r: Reply)
        ensures
            r@ == silence(control),
    {
        Reply { control, words: None }
    }

    /// A reply with words.
    pub fn say(control: u8, words: &str) -> (r: Reply)
        ensures
            r@ == speech(control, words@),
    {
        Reply { control, words: Some(words.to_owned()) }
    }

    /// A reply with the words of the user's language.
    pub fn say_in(control: u8, russian: bool, ru: &str, en: &str) -> (r: Reply)
        ensures
            r@ == speech(control, if russian { ru@ } else { en@ }),
    {
        if russian {
            Reply::say(control, ru)
        } else {
            Reply::say(control, en)
        }
    }
}

/// The bytes of a response: the control byte, then the sound. A response that changes
/// nothing and has no sound is not sent.
pub open spec fn framed(control: u8, pcm: Seq<u8>) -> Option<Seq<u8>> {
    if pcm.len() == 0 && control == CTRL_NONE {
        None
    } else {
        Some(seq![control] + pcm)
    }
}

/// The bytes of a response; none where there is nothing to send.
pub fn frame(control: u8, pcm: &[u8]) -> (r: Option<Vec<u8>>)
    ensures
        match r {
            Some(v) => framed(control, pcm@) == Some(v@),
            None => framed(control, pcm@) is None,
        },
{
    if pcm.len() == 0 && control == CTRL_NONE {
        return None;
    }
    let mut v: Vec<u8> = Vec::new();
    v.push(control);
    v.extend_from_slice(pcm);
    assert(v@ =~= seq![control] + pcm@);
    Some(v)
}

/// The device finds the control byte first and the sound after it, unchanged.
pub proof fn frame_reads_back(control: u8, pcm: Seq<u8>)
    requires
        framed(control, pcm) is Some,
    ensures
        framed(control, pcm)->0[0] == control,
        framed(control, pcm)->0.skip(1) == pcm,
{
    assert((seq![control] + pcm).skip(1) =~= pcm);
}

// ---------------------------------------------------------------- modes of the server

/// How the server answers.
#[derive(Clone, Copy, PartialEq, Eq, Structural)]
pub enum Mode {
    /// Echo the recorded sound.
    Loopback,
    /// Recognition and speech of the operating system, replies of the command line.
    Windows,
    /// Recognition, replies and speech of OpenAI.
    OpenAi,
    /// The agent that chooses skills.
    Skills,
    /// A mode that the server does not have.
    Unknown,
}

/// The mode of a name.
pub open spec fn mode_named(name: Seq<char>) -> Mode {
    if name == "loopback"@ {
        Mode::Loopback
    } else if name == "windows"@ {
        Mode::Windows
    } else if name == "openai"@ {
        Mode::OpenAi
    } else if name == "skills"@ {
        Mode::Skills
    } else {
        Mode::Unknown
    }
}

/// The mode of a name.
pub fn mode_of(name: &str) -> (m: Mode)
    ensures
        m == mode_named(name@),
{
    if same(name, "loopback") {
        Mode::Loopback
    } else if same(name, "windows") {
        Mode::Windows
    } else if same(name, "openai") {
        Mode::OpenAi
    } else if same(name, "skills") {
        Mode::Skills
    } else {
        Mode::Unknown
    }
}

// ---------------------------------------------------------------- laws

/// The control bytes are those that the device knows: a volume is the byte itself, a volume with
/// speaker mode lies 128 above it, and the other commands have bytes of their own.
pub proof fn control_bytes_are_fixed(v: u8)
    requires
        v <= 100,
    ensures
        Command::Volume(v).wf() && Command::Volume(v).spec_byte() == v,
        Command::VolumeAndSpeaker(v).wf() && Command::VolumeAndSpeaker(v).spec_byte() == 128 + v,
        Command::Keep.spec_byte() == 0xFF,
        Command::Speaker.spec_byte() == 0xFE,
        Command::KeepListening.spec_byte() == 0xFD,
        Command::StreamLocal.spec_byte() == 0xFC,
        Command::StreamExternal.spec_byte() == 0xFB,
{
}

/// The high bit of the header is the button, and the other seven are the persona, whatever the
/// button does.
pub proof fn header_bits_are_apart(persona: u8)
    requires
        persona < 0x80,
    ensures
        header_of(persona) == (Header { exit: false, persona }),
        header_of((persona + 0x80) as u8) == (Header { exit: true, persona }),
{
}

/// A response is sent wherever there is sound, or something to do without sound; only a response
/// without both is left out.
pub proof fn responses_are_sent(control: u8, pcm: Seq<u8>)
    ensures
        framed(control, pcm) is None <==> pcm.len() == 0 && control == 0xFF,
        framed(control, pcm) matches Some(f) ==> f.len() == pcm.len() + 1,
{
}

/// The four modes are known by these names, and no other name is a mode.
pub proof fn modes_are_named(name: Seq<char>)
    ensures
        mode_named("loopback"@) == Mode::Loopback,
        mode_named("windows"@) == Mode::Windows,
        mode_named("openai"@) == Mode::OpenAi,
        mode_named("skills"@) == Mode::Skills,
        mode_named(name) != Mode::Unknown ==> name == "loopback"@ || name == "windows"@ || name
            == "openai"@ || name == "skills"@,
{
    reveal_strlit("loopback");
    reveal_strlit("windows");
    reveal_strlit("openai");
    reveal_strlit("skills");
    assert("loopback"@[0] == 'l' && "windows"@[0] == 'w' && "openai"@[0] == 'o' && "skills"@[0]
        == 's');
}

} // verus!
