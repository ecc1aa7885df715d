use server_voice_s3r::cli::{
    ask_args, run_claude_chat, run_claude_coding, take_event, take_line, tool_summary,
};
use server_voice_s3r::config::{load_config, Config, Environment};
use server_voice_s3r::json::read_json;
use server_voice_s3r::prompts::{
    agent_prompt, agent_prompt_at, coding_prompt, hacker_system, skills_prompt, skills_prompt_at,
    talk_prompt, voice_prompt, voice_prompt_at, Persona,
};

fn config() -> Config {
    match load_config(&Environment::new(Vec::new()), "") {
        Ok(c) => c,
        Err(e) => panic!("{}", e.message()),
    }
}

#[test]
fn agent_prompts() {
    let p = agent_prompt_at("NOW", "open notepad");
    assert!(p.starts_with("You are a voice assistant that can ANSWER questions or CONTROL this Windows PC. Current local time: NOW (use it"));
    assert!(p.contains("may contain errors): \"open notepad\".\nIf the user wants to DO"));
    assert!(p.contains("{\"action\":true,\"say\":\"<one short"));
    assert!(p.ends_with("Output ONLY the JSON object and nothing else."));
    let now = agent_prompt("x");
    assert!(now.contains("errors): \"x\"."));
    assert!(now.len() > agent_prompt_at("", "x").len()); // the clock wrote something
}

#[test]
fn voice_prompts() {
    let p = voice_prompt_at("L", "U", "который час");
    assert!(p.starts_with("Current time is L (= U); this server's local time"));
    assert!(p.ends_with("asking what they meant.\n\nUser said: который час"));
    assert!(voice_prompt("x").contains(" UTC); this server's"));
}

#[test]
fn skills_prompts() {
    let j = Persona::from_byte(1, &config());
    let p = skills_prompt_at("NOW", "тише", 40, &j, "A, B", false);
    assert!(p.starts_with("You are Jarvis, a calm, capable MALE"));
    assert!(p.contains("current volume is 40 (0-100).\n\nReply with EXACTLY ONE"));
    assert!(p.contains("Favorite stations: [A, B]. Find"));
    assert!(!p.contains("COMPRESSOR"));
    assert!(p.ends_with("Output ONLY the JSON object.\n\nUser said: \"тише\""));
    let p = skills_prompt_at("NOW", "тише", 40, &j, "A, B", true);
    assert!(p.contains("\n6) Control the COMPRESSOR relay"));
    assert!(p.contains("{\"skill\":\"compressor\",\"action\":\"on|off|toggle|status\"}\n\nRules"));
    assert!(skills_prompt("x", 0, &j, "", false).contains("volume is 0 (0-100)"));
}

#[test]
fn prompts_of_the_modes() {
    assert!(hacker_system("взломай").contains("reply ONLY in Russian — match"));
    assert!(hacker_system("hack it").contains("reply ONLY in English — match"));
    let s = Persona::from_byte(0, &config());
    assert!(coding_prompt("run tests", &s).starts_with(s.coding_intro));
    assert!(coding_prompt("run tests", &s).ends_with("English).\n\nUser said: run tests"));
    assert!(talk_prompt("привет", &s).starts_with(s.skills_intro));
    assert!(talk_prompt("привет", &s).ends_with("\n\nUser said: привет"));
}

#[test]
fn calls_of_the_command_line() {
    let s = Persona::from_byte(0, &config());
    let c = run_claude_coding("x", "/code", true, &s);
    assert_eq!(
        c.args,
        vec!["-p", "--dangerously-skip-permissions", "--output-format", "stream-json", "--verbose", "--continue"]
    );
    assert_eq!(c.dir, "/code");
    assert_eq!(c.prompt, coding_prompt("x", &s));
    let c = run_claude_chat("x", "/chat", false, &s);
    assert_eq!(
        c.args,
        vec!["-p", "--allowedTools", "WebSearch,WebFetch", "--output-format", "stream-json", "--verbose"]
    );
    assert_eq!(c.prompt, talk_prompt("x", &s));
    assert_eq!(ask_args(), vec!["-p", "--tools", "WebSearch", "--allowedTools", "WebSearch"]);
}

#[test]
fn tool_calls_in_one_line() {
    let v = read_json("{\"command\":\"ls  -l\\n x\",\"file_path\":\"/a b\",\"pattern\":\"*.rs\"}").unwrap();
    assert_eq!(tool_summary("Bash", &v), "Bash: ls -l x");
    assert_eq!(tool_summary("Edit", &v), "Edit: /a b");
    assert_eq!(tool_summary("NotebookEdit", &v), "NotebookEdit: /a b");
    assert_eq!(tool_summary("Grep", &v), "Grep: *.rs");
    assert_eq!(tool_summary("Task", &v), "Task");
    let empty = read_json("{}").unwrap();
    assert_eq!(tool_summary("Bash", &empty), "Bash");
    let long = read_json(&format!("{{\"command\":\"{}\"}}", "я".repeat(200))).unwrap();
    assert_eq!(tool_summary("Bash", &long), format!("Bash: {}", "я".repeat(140)));
}

#[test]
fn reports_of_the_command_line() {
    let mut result = String::new();
    let line = "{\"type\":\"assistant\",\"message\":{\"content\":[{\"type\":\"text\",\"text\":\" Hi \"},{\"type\":\"text\",\"text\":\" \"},{\"type\":\"tool_use\",\"name\":\"Read\",\"input\":{\"file_path\":\"f\"}},{\"type\":\"tool_use\"},{\"type\":\"other\"}]}}";
    assert_eq!(take_line(line, &mut result), vec!["    · Hi", "    ⚙ Read: f", "    ⚙ ?"]);
    assert_eq!(result, "");
    assert!(take_line("  {\"type\":\"result\",\"result\":\"Done.\"}  ", &mut result).is_empty());
    assert_eq!(result, "Done.");
    for other in ["", "   ", "not json", "{}", "{\"type\":\"result\"}", "{\"type\":\"assistant\"}", "{\"type\":7}"] {
        assert!(take_line(other, &mut result).is_empty());
        assert_eq!(result, "Done.");
    }
    let v = read_json("{\"type\":\"result\",\"result\":\"Again.\"}").unwrap();
    take_event(&v, &mut result);
    assert_eq!(result, "Again.");
}
