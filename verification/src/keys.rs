//! Key bindings: the key events the application binds, their text form in
//! the configuration (`q`, `C-c`, `M-x`, `esc`, `f1`, `page_down`, ...), and
//! lists of alternative keys.

use vstd::prelude::*;

verus! {

/// A named key.
#[derive(Debug, Clone, Copy, PartialEq, Eq, Structural)]
pub enum KeyCode {
    Enter,
    Tab,
    Backspace,
    Esc,
    Left,
    Right,
    Up,
    Down,
    Ins,
    Del,
    Home,
    End,
    PageUp,
    PageDown,
    F1,
    F2,
    F3,
    F4,
    F5,
    F6,
    F7,
    F8,
    F9,
    F10,
    F11,
    F12,
}

/// A key event: a character, a character with Ctrl or Alt, or a named key.
#[derive(Debug, Clone, Copy, PartialEq, Eq, Structural)]
pub enum KeyEvent {
    Char(char),
    CtrlChar(char),
    AltChar(char),
    Key(KeyCode),
}

/// The name of a named key in the configuration.
pub open spec fn key_name(k: KeyCode) -> Seq<char> {
    match k {
        KeyCode::Enter => "enter"@,
        KeyCode::Tab => "tab"@,
        KeyCode::Backspace => "backspace"@,
        KeyCode::Esc => "esc"@,
        KeyCode::Left => "left"@,
        KeyCode::Right => "right"@,
        KeyCode::Up => "up"@,
        KeyCode::Down => "down"@,
        KeyCode::Ins => "ins"@,
        KeyCode::Del => "del"@,
        KeyCode::Home => "home"@,
        KeyCode::End => "end"@,
        KeyCode::PageUp => "page_up"@,
        KeyCode::PageDown => "page_down"@,
        KeyCode::F1 => "f1"@,
        KeyCode::F2 => "f2"@,
        KeyCode::F3 => "f3"@,
        KeyCode::F4 => "f4"@,
        KeyCode::F5 => "f5"@,
        KeyCode::F6 => "f6"@,
        KeyCode::F7 => "f7"@,
        KeyCode::F8 => "f8"@,
        KeyCode::F9 => "f9"@,
        KeyCode::F10 => "f10"@,
        KeyCode::F11 => "f11"@,
        KeyCode::F12 => "f12"@,
    }
}

/// All named keys.
pub open spec fn all_keys() -> Seq<KeyCode> {
    seq![
        KeyCode::Enter,
        KeyCode::Tab,
        KeyCode::Backspace,
        KeyCode::Esc,
        KeyCode::Left,
        KeyCode::Right,
        KeyCode::Up,
        KeyCode::Down,
        KeyCode::Ins,
        KeyCode::Del,
        KeyCode::Home,
        KeyCode::End,
        KeyCode::PageUp,
        KeyCode::PageDown,
        KeyCode::F1,
        KeyCode::F2,
        KeyCode::F3,
        KeyCode::F4,
        KeyCode::F5,
        KeyCode::F6,
        KeyCode::F7,
        KeyCode::F8,
        KeyCode::F9,
        KeyCode::F10,
        KeyCode::F11,
        KeyCode::F12,
    ]
}

/// The named key a text names, if any.
pub open spec fn key_named(s: Seq<char>) -> Option<KeyCode> {
    if exists|k: KeyCode| #[trigger] key_name(k) == s {
        Some(choose|k: KeyCode| #[trigger] key_name(k) == s)
    } else {
        None
    }
}

/// The text of a key event: the character itself, `C-` or `M-` and the
/// character, or the key's name.
pub open spec fn event_text(e: KeyEvent) -> Seq<char> {
    match e {
        KeyEvent::Char(c) => seq![c],
        KeyEvent::CtrlChar(c) => seq!['C', '-', c],
        KeyEvent::AltChar(c) => seq!['M', '-', c],
        KeyEvent::Key(k) => key_name(k),
    }
}

/// The key event a text denotes: one character is that character; three
/// characters `C-c` or `M-c` are Ctrl or Alt with `c`; otherwise a key name.
pub open spec fn parse_event(s: Seq<char>) -> Option<KeyEvent> {
    if s.len() == 1 {
        Some(KeyEvent::Char(s[0]))
    } else if s.len() == 3 && s[1] == '-' {
        if s[0] == 'C' {
            Some(KeyEvent::CtrlChar(s[2]))
        } else if s[0] == 'M' {
            Some(KeyEvent::AltChar(s[2]))
        } else {
            None
        }
    } else {
        match key_named(s) {
            Some(k) => Some(KeyEvent::Key(k)),
            None => None,
        }
    }
}

proof fn lemma_key_names(k: KeyCode)
    ensures
        key_name(k).len() >= 2,
        key_name(k).len() == 3 ==> key_name(k)[1] != '-',
        forall|j: KeyCode| #[trigger] key_name(j) == key_name(k) ==> j == k,
{
    reveal_strlit("enter");
    reveal_strlit("tab");
    reveal_strlit("backspace");
    reveal_strlit("esc");
    reveal_strlit("left");
    reveal_strlit("right");
    reveal_strlit("up");
    reveal_strlit("down");
    reveal_strlit("ins");
    reveal_strlit("del");
    reveal_strlit("home");
    reveal_strlit("end");
    reveal_strlit("page_up");
    reveal_strlit("page_down");
    reveal_strlit("f1");
    reveal_strlit("f2");
    reveal_strlit("f3");
    reveal_strlit("f4");
    reveal_strlit("f5");
    reveal_strlit("f6");
    reveal_strlit("f7");
    reveal_strlit("f8");
    reveal_strlit("f9");
    reveal_strlit("f10");
    reveal_strlit("f11");
    reveal_strlit("f12");
    assert forall|j: KeyCode| #[trigger] key_name(j) == key_name(k) implies j == k by {
        if j != k {
            let a = key_name(j);
            let b = key_name(k);
            if a.len() == b.len() {
                assert(exists|i: int| 0 <= i < a.len() && a[i] != b[i]) by {
                    if a.len() > 1 && a[1] != b[1] {
                        assert(a[1] != b[1]);
                    } else if a.len() > 2 && a[2] != b[2] {
                        assert(a[2] != b[2]);
                    } else if a.len() > 0 && a[0] != b[0] {
                        assert(a[0] != b[0]);
                    } else if a.len() > 3 && a[3] != b[3] {
                        assert(a[3] != b[3]);
                    } else {
                        assert(a.len() > 4 && a[4] != b[4]);
                    }
                }
            }
        }
    }
}

/// Reading a key event's text gives the event back.
pub proof fn parse_event_text(e: KeyEvent)
    ensures
        parse_event(event_text(e)) == Some(e),
{
    match e {
        KeyEvent::Key(k) => {
            lemma_key_names(k);
        },
        _ => {},
    }
}

/// A text that denotes a key event is that event's text.
pub proof fn event_text_of_parse(s: Seq<char>)
    requires
        parse_event(s) is Some,
    ensures
        event_text(parse_event(s).unwrap()) == s,
{
    if s.len() == 1 {
        assert(seq![s[0]] =~= s);
    } else if s.len() == 3 && s[1] == '-' {
        assert(seq![s[0], '-', s[2]] =~= s);
    } else {
        let k = choose|k: KeyCode| #[trigger] key_name(k) == s;
        assert(key_name(k) == s);
    }
}

/// The name of a named key.
pub fn key_name_str(k: KeyCode) -> (res: &'static str)
    ensures
        res@ == key_name(k),
{
    match k {
        KeyCode::Enter => "enter",
        KeyCode::Tab => "tab",
        KeyCode::Backspace => "backspace",
        KeyCode::Esc => "esc",
        KeyCode::Left => "left",
        KeyCode::Right => "right",
        KeyCode::Up => "up",
        KeyCode::Down => "down",
        KeyCode::Ins => "ins",
        KeyCode::Del => "del",
        KeyCode::Home => "home",
        KeyCode::End => "end",
        KeyCode::PageUp => "page_up",
        KeyCode::PageDown => "page_down",
        KeyCode::F1 => "f1",
        KeyCode::F2 => "f2",
        KeyCode::F3 => "f3",
        KeyCode::F4 => "f4",
        KeyCode::F5 => "f5",
        KeyCode::F6 => "f6",
        KeyCode::F7 => "f7",
        KeyCode::F8 => "f8",
        KeyCode::F9 => "f9",
        KeyCode::F10 => "f10",
        KeyCode::F11 => "f11",
        KeyCode::F12 => "f12",
    }
}

/// The named key a text names, if any.
pub fn key_named_exec(s: &str) -> (res: Option<KeyCode>)
    ensures
        res == key_named(s@),
{
    let res = if crate::query::str_eq(s, "enter") {
        Some(KeyCode::Enter)
    } else if crate::query::str_eq(s, "tab") {
        Some(KeyCode::Tab)
    } else if crate::query::str_eq(s, "backspace") {
        Some(KeyCode::Backspace)
    } else if crate::query::str_eq(s, "esc") {
        Some(KeyCode::Esc)
    } else if crate::query::str_eq(s, "left") {
        Some(KeyCode::Left)
    } else if crate::query::str_eq(s, "right") {
        Some(KeyCode::Right)
    } else if crate::query::str_eq(s, "up") {
        Some(KeyCode::Up)
    } else if crate::query::str_eq(s, "down") {
        Some(KeyCode::Down)
    } else if crate::query::str_eq(s, "ins") {
        Some(KeyCode::Ins)
    } else if crate::query::str_eq(s, "del") {
        Some(KeyCode::Del)
    } else if crate::query::str_eq(s, "home") {
        Some(KeyCode::Home)
    } else if crate::query::str_eq(s, "end") {
        Some(KeyCode::End)
    } else if crate::query::str_eq(s, "page_up") {
        Some(KeyCode::PageUp)
    } else if crate::query::str_eq(s, "page_down") {
        Some(KeyCode::PageDown)
    } else if crate::query::str_eq(s, "f1") {
        Some(KeyCode::F1)
    } else if crate::query::str_eq(s, "f2") {
        Some(KeyCode::F2)
    } else if crate::query::str_eq(s, "f3") {
        Some(KeyCode::F3)
    } else if crate::query::str_eq(s, "f4") {
        Some(KeyCode::F4)
    } else if crate::query::str_eq(s, "f5") {
        Some(KeyCode::F5)
    } else if crate::query::str_eq(s, "f6") {
        Some(KeyCode::F6)
    } else if crate::query::str_eq(s, "f7") {
        Some(KeyCode::F7)
    } else if crate::query::str_eq(s, "f8") {
        Some(KeyCode::F8)
    } else if crate::query::str_eq(s, "f9") {
        Some(KeyCode::F9)
    } else if crate::query::str_eq(s, "f10") {
        Some(KeyCode::F10)
    } else if crate::query::str_eq(s, "f11") {
        Some(KeyCode::F11)
    } else if crate::query::str_eq(s, "f12") {
        Some(KeyCode::F12)
    } else {
        None
    };
    proof {
        match res {
            Some(k) => {
                lemma_key_names(k);
                assert(key_name(k) == s@);
            },
            None => {
                assert forall|k: KeyCode| #[trigger] key_name(k) != s@ by {}
            },
        }
    }
    res
}

/// The text of a key event.
pub fn event_text_string(e: KeyEvent) -> (res: String)
    ensures
        res@ == event_text(e),
{
    match e {
        KeyEvent::Char(c) => {
            let v = vec![c];
            crate::text::string_of(v.as_slice())
        },
        KeyEvent::CtrlChar(c) => {
            let v = vec!['C', '-', c];
            crate::text::string_of(v.as_slice())
        },
        KeyEvent::AltChar(c) => {
            let v = vec!['M', '-', c];
            crate::text::string_of(v.as_slice())
        },
        KeyEvent::Key(k) => String::from_str(key_name_str(k)),
    }
}

/// The error for a text that denotes no key.
pub open spec fn key_error(s: Seq<char>) -> Seq<char> {
    "failed to parse key: unknown/invalid key "@ + s
}

/// Reads the text of a key event, or gives an error naming the text.
pub fn parse_key_string(s: &str) -> (res: Result<KeyEvent, String>)
    ensures
        match res {
            Ok(e) => parse_event(s@) == Some(e),
            Err(m) => parse_event(s@) is None && m@ == key_error(s@),
        },
{
    let chars = crate::text::chars_of(s);
    if chars.len() == 1 {
        return Ok(KeyEvent::Char(chars[0]));
    }
    if chars.len() == 3 && chars[1] == '-' {
        if chars[0] == 'C' {
            return Ok(KeyEvent::CtrlChar(chars[2]));
        } else if chars[0] == 'M' {
            return Ok(KeyEvent::AltChar(chars[2]));
        } else {
            let mut m = String::from_str("failed to parse key: unknown/invalid key ");
            m.append(s);
            return Err(m);
        }
    }
    match key_named_exec(s) {
        Some(k) => Ok(KeyEvent::Key(k)),
        None => {
            let mut m = String::from_str("failed to parse key: unknown/invalid key ");
            m.append(s);
            Err(m)
        },
    }
}

/// A list of alternative keys for one action.
#[derive(Debug, Clone)]
pub struct Keys {
    pub events: Vec<KeyEvent>,
}

/// The text of a list of keys: nothing for none, the key's text for one,
/// and `[a, b, ...]` for more.
pub open spec fn keys_text(es: Seq<KeyEvent>) -> Seq<char> {
    if es.len() == 0 {
        Seq::empty()
    } else if es.len() == 1 {
        event_text(es[0])
    } else {
        "["@ + event_text(es[0]) + rest_text(es, 1) + "]"@
    }
}

/// `, ` and each key's text, from the `k`-th on.
pub open spec fn rest_text(es: Seq<KeyEvent>, k: int) -> Seq<char>
    decreases es.len() - k,
{
    if k < 0 || k >= es.len() {
        Seq::empty()
    } else {
        ", "@ + event_text(es[k]) + rest_text(es, k + 1)
    }
}

/// The keys read from their texts: the first text that denotes no key gives
/// its error.
pub open spec fn keys_from_texts(ss: Seq<Seq<char>>) -> Result<Seq<KeyEvent>, Seq<char>>
    decreases ss.len(),
{
    if ss.len() == 0 {
        Ok(Seq::empty())
    } else {
        match keys_from_texts(ss.drop_last()) {
            Err(m) => Err(m),
            Ok(es) => match parse_event(ss.last()) {
                Some(e) => Ok(es.push(e)),
                None => Err(key_error(ss.last())),
            },
        }
    }
}

impl Keys {
    /// Keys from a list of events.
    pub fn new(events: Vec<KeyEvent>) -> (res: Keys)
        ensures
            res.events@ == events@,
    {
        Keys { events }
    }

    /// Whether the list holds `e`.
    pub fn has_event(&self, e: &KeyEvent) -> (res: bool)
        ensures
            res == self.events@.contains(*e),
    {
        let mut k: usize = 0;
        while k < self.events.len()
            invariant
                k <= self.events@.len(),
                forall|i: int| 0 <= i < k ==> self.events@[i] != *e,
            decreases self.events.len() - k,
        {
            if self.events[k] == *e {
                assert(self.events@[k as int] == *e);
                return true;
            }
            k += 1;
        }
        false
    }

    /// The text of the keys, as the help shows it.
    pub fn to_text(&self) -> (res: String)
        ensures
            res@ == keys_text(self.events@),
    {
        let n = self.events.len();
        if n == 0 {
            return String::new();
        }
        if n == 1 {
            return event_text_string(self.events[0]);
        }
        let mut s = String::from_str("[");
        let first = event_text_string(self.events[0]);
        s.append(first.as_str());
        let ghost s0 = s@;
        let mut k: usize = 1;
        assert(rest_text(self.events@, 1) =~= rest_text(self.events@, 1));
        while k < n
            invariant
                1 <= k <= n,
                n == self.events@.len(),
                s@ + rest_text(self.events@, k as int) == s0 + rest_text(self.events@, 1),
            decreases n - k,
        {
            let ghost before = s@;
            s.append(", ");
            let t = event_text_string(self.events[k]);
            s.append(t.as_str());
            assert(before + rest_text(self.events@, k as int) =~= s@ + rest_text(self.events@, k + 1));
            k += 1;
        }
        assert(s@ + rest_text(self.events@, k as int) =~= s@);
        s.append("]");
        s
    }

    /// Reads keys from their texts, or gives the error of the first text
    /// that denotes no key.
    pub fn from_key_strings(texts: &Vec<String>) -> (res: Result<Keys, String>)
        ensures
            match res {
                Ok(k) => keys_from_texts(texts@.map_values(|t: String| t@)) == Ok::<Seq<KeyEvent>, Seq<char>>(k.events@),
                Err(m) => keys_from_texts(texts@.map_values(|t: String| t@)) == Err::<Seq<KeyEvent>, Seq<char>>(m@),
            },
    {
        let ghost ts = texts@.map_values(|t: String| t@);
        let mut events: Vec<KeyEvent> = Vec::new();
        let mut k: usize = 0;
        while k < texts.len()
            invariant
                k <= texts@.len(),
                ts == texts@.map_values(|t: String| t@),
                keys_from_texts(ts.take(k as int)) == Ok::<Seq<KeyEvent>, Seq<char>>(events@),
            decreases texts.len() - k,
        {
            assert(ts.take(k + 1).drop_last() =~= ts.take(k as int));
            match parse_key_string(texts[k].as_str()) {
                Ok(e) => {
                    events.push(e);
                },
                Err(m) => {
                    proof {
                        lemma_keys_error_stays(ts, k as int + 1);
                    }
                    return Err(m);
                },
            }
            k += 1;
        }
        assert(ts.take(texts@.len() as int) =~= ts);
        Ok(Keys { events })
    }
}

proof fn lemma_keys_error_stays(ts: Seq<Seq<char>>, k: int)
    requires
        0 <= k <= ts.len(),
        keys_from_texts(ts.take(k)) is Err,
    ensures
        keys_from_texts(ts) == keys_from_texts(ts.take(k)),
    decreases ts.len() - k,
{
    if k < ts.len() {
        assert(ts.take(k + 1).drop_last() =~= ts.take(k));
        lemma_keys_error_stays(ts, k + 1);
    } else {
        assert(ts.take(k) =~= ts);
    }
}

} // verus!
