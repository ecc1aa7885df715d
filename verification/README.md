# server_voice_s3r

The server of a voice assistant for the ATOM VoiceS3R smart speaker. The device records an
utterance and sends it over TCP; the server answers with a control byte and speech.

`src/` is the decision core, verified with Verus: every function states what it returns or
changes, and the laws of the library stand beside the functions as public proof functions.
`app/` is the program around it: sockets, other programs, web services, clipboard and keyboard.

## The library

| Module | What it decides |
|---|---|
| `protocol` | control bytes, the request header, the frame of a reply |
| `session` | the state between two utterances, how a turn begins, silence |
| `modes` | chat, translate, hacker and coding mode |
| `brain` | routing of an utterance, the skills, the local assistant, plain chat |
| `phrases`, `volume` | what a phrase asks for, in Russian or English |
| `speech` | what of a reply is spoken, which transcripts are worth keeping |
| `dictation` | where a dictated phrase goes, and as which keys |
| `segment`, `realtime` | streaming transcription |
| `radio` | favorite stations, which one is meant, which address to play |
| `compressor` | the relay of the compressor |
| `polling` | how long something is waited for |
| `cli` | calls of the language model's command line, and its reports |
| `prompts`, `requests`, `replies`, `json` | what is handed to services, and what they answer |
| `config` | environment, `.env` file, settings |
| `audio`, `loopback` | samples, WAV, resampling, the buffer of the speaker stream |
| `text` | searching, trimming, splitting, numbers |

What other crates compute (`serde_json`, `base64`, `chrono`) and what `std` says about letters
is called through small items whose contracts state what the library relies on; their doc
comments name the outside function and say what is taken from it without proof.

## The program

The settings are those of the `.env` file next to the executable and of the environment, which
wins. `CLAUDE_CLI` names the command line of the language model, where it is not the one that the
setting is named after. With the argument `pc_speaker` the program serves the speaker stream alone.
