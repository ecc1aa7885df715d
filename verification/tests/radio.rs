use server_voice_s3r::radio::{
    best_of, core_words_of, count_in, favorite_names, is_asked_for, match_favorite,
    match_favorite_radio, normalize_radio, parse_station, parse_stations, radio_core_words,
    resolve_request, resolve_station, score, Probing, RadioStation,
};

fn strings(v: &[&str]) -> Vec<String> {
    v.iter().map(|s| s.to_string()).collect()
}

fn station(name: &str, url: Option<&str>, aliases: &[&str]) -> RadioStation {
    RadioStation { name: name.to_string(), url: url.map(|u| u.to_string()), aliases: strings(aliases) }
}

fn favorites() -> Vec<RadioStation> {
    vec![
        station("Кис ФМ", Some("http://kiss"), &["kiss", "kis"]),
        station("Ретро FM", None, &[]),
        station("Jazz Radio", Some("http://jazz"), &[]),
    ]
}

#[test]
fn favorites_in_three_formats() {
    let s = parse_station(" Ретро FM ").unwrap();
    assert_eq!(s.name, "Ретро FM");
    assert_eq!(s.url, None);
    assert!(s.aliases.is_empty());
    let s = parse_station("Кис ФМ | http://online.kissfm.ua/KissFM").unwrap();
    assert_eq!(s.url, Some("http://online.kissfm.ua/KissFM".to_string()));
    let s = parse_station("Кис ФМ | http://x | kiss, , kis | ignored").unwrap();
    assert_eq!(s.aliases, strings(&["kiss", "kis"]));
    let s = parse_station("A || b").unwrap();
    assert_eq!(s.url, None);
    assert_eq!(s.aliases, strings(&["b"]));
    assert!(parse_station("").is_none());
    assert!(parse_station(" | http://x").is_none());
    let all = parse_stations(&strings(&["A", "", "B | u"]));
    assert_eq!(favorite_names(&all), "A, B");
}

#[test]
fn spellings_are_made_alike() {
    assert_eq!(normalize_radio("Ёлка ФМ"), "елка fm");
    assert_eq!(normalize_radio("Ретро ФМ"), "ретро fm");
    assert_eq!(normalize_radio("ретро FM"), "ретро fm");
    for s in ["ФФММ ЁЁ", "фМ", "İstanbul ΑΣ фм", "KISS ФМфм"] {
        let once = normalize_radio(s);
        assert_eq!(normalize_radio(&once), once);
        assert!(!once.contains('ё'));
        assert!(!once.contains("фм"));
    }
    assert_eq!(radio_core_words("Радио 96FM Ретро ФМ"), strings(&["96", "ретро"]));
    assert_eq!(radio_core_words("FM Radio"), strings(&[]));
    assert_eq!(core_words_of("redfm the ua"), strings(&["red"]));
}

#[test]
fn scores_count_words_and_aliases() {
    let f = favorites();
    assert_eq!(score("включи кис fm", &f[0]), 1); // the name, no alias
    assert_eq!(score("play kiss", &f[0]), 2); // both aliases
    assert_eq!(score("ретро", &f[1]), 0); // not pinned
    assert_eq!(count_in("abc", &strings(&["a", "", "z"])), 1);
    assert_eq!(best_of(&vec![0, 2, 1]), Some(1));
    assert_eq!(best_of(&vec![2, 2, 1]), None);
    assert_eq!(best_of(&vec![2, 2, 3]), Some(2));
    assert_eq!(best_of(&vec![0, 0]), None);
    assert_eq!(best_of(&vec![]), None);
}

#[test]
fn a_pinned_favorite_is_matched() {
    let f = favorites();
    let hit = match_favorite_radio("Включи Кис ФМ", &f).unwrap();
    assert_eq!(hit, ("Кис ФМ".to_string(), "http://kiss".to_string()));
    assert_eq!(match_favorite_radio("play JAZZ", &f).unwrap().1, "http://jazz");
    assert!(match_favorite_radio("jazz", &f).is_none()); // no context word
    assert!(match_favorite_radio("включи Ретро ФМ", &f).is_none()); // not pinned
    assert!(match_favorite_radio("включи радио", &f).is_none());
    assert!(match_favorite("play jazz", &Vec::new()).is_none());
}

#[test]
fn a_tie_is_left_to_the_brain() {
    let f = vec![
        station("Jazz One", Some("http://1"), &[]),
        station("Jazz Two", Some("http://2"), &[]),
    ];
    assert!(match_favorite_radio("play jazz", &f).is_none());
    assert_eq!(match_favorite_radio("play jazz two", &f).unwrap().1, "http://2");
}

#[test]
fn candidates_in_order() {
    let f = favorites();
    let found = Some("http://dir".to_string());
    let got = resolve_station(" Кис фм ", " http://brain ", &f, found);
    assert_eq!(got, strings(&["http://brain", "http://kiss", "http://dir"]));
    let got = resolve_station("", "http://brain", &f, Some("http://dir".to_string()));
    assert_eq!(got, strings(&["http://brain"]));
    let got = resolve_station("nothing", "not a url", &f, None);
    assert_eq!(got, strings(&[]));
    let got = resolve_request("kiss", "http://kiss", &f, Some("http://kiss".to_string()));
    assert_eq!(got, strings(&["http://kiss"]));
    assert!(is_asked_for("jazz", "jazz radio", &Vec::new()));
    assert!(is_asked_for("kissing", "кис", &strings(&["kiss"])));
    assert!(!is_asked_for("rock", "jazz", &strings(&[""])));
}

#[test]
fn probing_takes_the_first_live_one() {
    let mut p = Probing::new(strings(&["a", "b", "c"]));
    assert_eq!(p.next(), Some("a".to_string()));
    assert_eq!(p.report(false), None);
    assert_eq!(p.next(), Some("b".to_string()));
    assert_eq!(p.report(true), Some("b".to_string()));
    assert_eq!(p.report(false), None);
    assert_eq!(p.next(), None);
}
