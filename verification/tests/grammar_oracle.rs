//! The hand-written notification grammar checked against the same patterns
//! run by the `regex` crate, on many generated texts.
use focusretro::parser::{
    clean_html, extract_character_from_title, parse_group_invite, parse_pm, parse_trade,
    parse_turn_notification, toast_texts,
};
use regex::Regex;

struct Oracle {
    turn: Regex,
    invite: Regex,
    trade: Regex,
    pm: Regex,
    link: Regex,
    tag: Regex,
    title: Regex,
    toast: Regex,
}

impl Oracle {
    fn new() -> Self {
        Oracle {
            turn: Regex::new(r"(?i)^(?:C'est à (.+?) de jouer|(.+?) 's turn to play|le toca jugar a (.+?))$").unwrap(),
            invite: Regex::new(r"(?i)^(?:(.+?) (?:t'invite à rejoindre son groupe|te invita a unirte a su grupo)|You are invited to join (.+?)'s group)").unwrap(),
            trade: Regex::new(r"(?i)^(.+?) (?:te propose de faire un échange|offers a trade|te propone realizar un intercambio)").unwrap(),
            pm: Regex::new(r"(?i)^(?:desde|de|from) (.+?) : (.+)$").unwrap(),
            link: Regex::new(r#"<a\s[^>]*>([^<]*)</a>"#).unwrap(),
            tag: Regex::new(r"<[^>]+>").unwrap(),
            title: Regex::new(r"^(.+?) - Dofus Retro v[\d.]+$").unwrap(),
            toast: Regex::new(r"(?s)<text[^>]*>([^<]*)</text>").unwrap(),
        }
    }

    fn clean(&self, text: &str) -> String {
        let step1 = self.link.replace_all(text, "$1");
        let step2 = self.tag.replace_all(&step1, "");
        step2.trim().to_string()
    }

    fn first_group(&self, re: &Regex, text: &str, groups: &[usize]) -> Option<String> {
        let caps = re.captures(text.trim())?;
        let name = groups
            .iter()
            .filter_map(|&i| caps.get(i))
            .map(|m| m.as_str().trim())
            .find(|s| !s.is_empty())?;
        Some(name.to_string())
    }

    fn turn(&self, text: &str) -> Option<String> {
        self.first_group(&self.turn, text, &[1, 2, 3])
    }

    fn invite(&self, text: &str) -> Option<String> {
        self.first_group(&self.invite, text, &[1, 2])
    }

    fn trade(&self, text: &str) -> Option<String> {
        self.first_group(&self.trade, text, &[1])
    }

    fn title(&self, text: &str) -> Option<String> {
        self.first_group(&self.title, text, &[1])
    }

    fn pm(&self, text: &str) -> Option<(String, String)> {
        let caps = self.pm.captures(text.trim())?;
        let sender = caps[1].trim();
        let message = caps[2].trim();
        if !sender.is_empty() && !message.is_empty() {
            Some((sender.to_string(), self.clean(message)))
        } else {
            None
        }
    }

    fn toast(&self, payload: &str) -> Vec<String> {
        self.toast
            .captures_iter(payload)
            .map(|cap| cap[1].trim().to_string())
            .filter(|s| !s.is_empty())
            .collect()
    }
}

const FRAGMENTS: &[&str] = &[
    "C'est à ", "c'EST À ", " de jouer", " DE JOUER", " 's turn to play", "le toca jugar a ",
    "LE TOCA JUGAR A ", " t'invite à rejoindre son groupe", " TE INVITA A UNIRTE A SU GRUPO",
    "You are invited to join ", "you are invited to join ", "'s group", "'S GROUP",
    " te propose de faire un échange", " OFFERS A TRADE", " te propone realizar un intercambio",
    "desde ", "de ", "from ", "FROM ", " : ", " - Dofus Retro v", "1.47.20", "٣", ".", "v",
    "Craette", "Kura-noire", "Testy", "My-Char_123", " ", "  ", "\n", "\t", "\u{a0}", "\u{3000}",
    "x", "é", "É", "à", "À", "ſ", "\u{212A}", "s", "k", "<a href=\"x\">", "<a\tid=1>", "</a>",
    "<b>", "</b>", "<", ">", "[", "]", "<text>", "<text id=\"2\">", "</text>", "hello", "':",
    ":", "'",
];

struct Lcg(u64);

impl Lcg {
    fn next(&mut self) -> usize {
        self.0 = self.0.wrapping_mul(6364136223846793005).wrapping_add(1442695040888963407);
        (self.0 >> 33) as usize
    }
}

fn texts(count: usize, seed: u64) -> Vec<String> {
    let mut rng = Lcg(seed);
    let mut out = Vec::new();
    for _ in 0..count {
        let n = rng.next() % 7;
        let mut s = String::new();
        for _ in 0..n {
            s.push_str(FRAGMENTS[rng.next() % FRAGMENTS.len()]);
        }
        out.push(s);
    }
    out
}

#[test]
fn turn_phrases_match_regex() {
    let o = Oracle::new();
    for t in texts(20000, 1) {
        let got = parse_turn_notification(&t).map(|x| x.character_name);
        assert_eq!(got, o.turn(&t), "text {:?}", t);
    }
}

#[test]
fn invite_phrases_match_regex() {
    let o = Oracle::new();
    for t in texts(20000, 2) {
        assert_eq!(parse_group_invite(&t), o.invite(&t), "text {:?}", t);
    }
}

#[test]
fn trade_phrases_match_regex() {
    let o = Oracle::new();
    for t in texts(20000, 3) {
        assert_eq!(parse_trade(&t), o.trade(&t), "text {:?}", t);
    }
}

#[test]
fn pm_phrases_match_regex() {
    let o = Oracle::new();
    for t in texts(20000, 4) {
        assert_eq!(parse_pm(&t), o.pm(&t), "text {:?}", t);
    }
}

#[test]
fn titles_match_regex() {
    let o = Oracle::new();
    for t in texts(20000, 5) {
        assert_eq!(extract_character_from_title(&t), o.title(&t), "text {:?}", t);
    }
}

#[test]
fn html_cleaning_matches_regex() {
    let o = Oracle::new();
    for t in texts(20000, 6) {
        assert_eq!(clean_html(&t), o.clean(&t), "text {:?}", t);
    }
}

#[test]
fn toast_texts_match_regex() {
    let o = Oracle::new();
    for t in texts(20000, 7) {
        assert_eq!(toast_texts(&t), o.toast(&t), "payload {:?}", t);
    }
}
