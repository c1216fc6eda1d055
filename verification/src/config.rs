//! The application's settings.

use vstd::prelude::*;
use crate::paths::{home_dir, join_path, path_join};
use crate::storage::{SaveTarget, SaveTargetType};
use crate::hotkey::{
    ascii_lowering, key_named, modifier_named, read_parts_with, shortcut_with, Code, Modifiers,
    Shortcut,
};
use crate::text::{ascii_lowercase, is_ascii_text, split_on, trimmed, trim_end_spec, trim_start_spec};

verus! {

/// The settings of the application, kept in `~/.capdrop/config.json`.
#[derive(Clone, Debug)]
pub struct AppConfig {
    pub hotkey: String,
    pub save_targets: Vec<SaveTarget>,
    pub default_save_path: String,
    pub filename_template: String,
    /// Path to a Markdown file for auto-inserting screenshots
    pub markdown_path: Option<String>,
}

/// The view of an optional string.
pub open spec fn opt_view(o: Option<String>) -> Option<Seq<char>> {
    match o {
        Some(s) => Some(s@),
        None => None,
    }
}

/// `c` holds the default settings: hotkey `Alt+Shift+S`; save to the
/// clipboard and to `~/Pictures/CapDrop`, both enabled; files named
/// `screenshot_{timestamp}`; no Markdown file.
pub open spec fn is_default_config(c: AppConfig) -> bool {
    &&& c.hotkey@ == "Alt+Shift+S"@
    &&& c.save_targets@.len() == 2
    &&& c.save_targets@[0].target_type == SaveTargetType::Clipboard
    &&& opt_view(c.save_targets@[0].path) == None::<Seq<char>>
    &&& c.save_targets@[0].enabled
    &&& c.save_targets@[1].target_type == SaveTargetType::LocalFile
    &&& opt_view(c.save_targets@[1].path) == Some("~/Pictures/CapDrop"@)
    &&& c.save_targets@[1].enabled
    &&& c.default_save_path@ == "~/Pictures/CapDrop"@
    &&& c.filename_template@ == "screenshot_{timestamp}"@
    &&& c.markdown_path is None
}

impl Default for AppConfig {
    fn default() -> (c: Self)
        ensures
            is_default_config(c),
    {
        let mut save_targets: Vec<SaveTarget> = Vec::new();
        save_targets.push(
            SaveTarget { target_type: SaveTargetType::Clipboard, path: None, enabled: true },
        );
        save_targets.push(
            SaveTarget {
                target_type: SaveTargetType::LocalFile,
                path: Some(String::from_str("~/Pictures/CapDrop")),
                enabled: true,
            },
        );
        AppConfig {
            hotkey: String::from_str("Alt+Shift+S"),
            save_targets,
            default_save_path: String::from_str("~/Pictures/CapDrop"),
            filename_template: String::from_str("screenshot_{timestamp}"),
            markdown_path: None,
        }
    }
}

/// `<home>/.capdrop/config.json`.
pub open spec fn config_path_spec(home: Seq<char>) -> Seq<char> {
    path_join(path_join(home, ".capdrop"@), "config.json"@)
}

impl AppConfig {
    /// Replaces the settings with `new_config`; the application then writes
    /// them to disk.
    pub fn update(&mut self, new_config: AppConfig)
        ensures
            *final(self) == new_config,
    {
        *self = new_config;
    }

    /// The settings file below the home directory `home`.
    pub fn config_path_under(home: &str) -> (p: String)
        ensures
            p@ == config_path_spec(home@),
    {
        let dir = join_path(home, ".capdrop");
        join_path(dir.as_str(), "config.json")
    }

    /// The settings file for the home directory `home`, or an error when
    /// there is none.
    pub fn config_path_from_home(home: Option<&str>) -> (r: Result<String, String>)
        ensures
            match home {
                Some(h) => r matches Ok(p) && p@ == config_path_spec(h@),
                None => r matches Err(e) && e@ == "Cannot find home directory"@,
            },
    {
        match home {
            Some(h) => Ok(Self::config_path_under(h)),
            None => Err(String::from_str("Cannot find home directory")),
        }
    }

    /// The settings file: `~/.capdrop/config.json`, or an error when the
    /// home directory cannot be found.
    pub fn config_path() -> (r: Result<String, String>)
        ensures
            match r {
                Ok(p) => exists|home: Seq<char>| p@ == config_path_spec(home),
                Err(e) => e@ == "Cannot find home directory"@,
            },
    {
        match home_dir() {
            Some(home) => Self::config_path_from_home(Some(home.as_str())),
            None => Self::config_path_from_home(None),
        }
    }
}

/// The default hotkey parses: `Alt+Shift+S` is the key S with Alt and
/// Shift held. (Being ASCII, it is read as `parse_shortcut` reads ASCII
/// text.)
pub proof fn law_default_hotkey_parses(c: AppConfig)
    requires
        is_default_config(c),
    ensures
        is_ascii_text(c.hotkey@),
        shortcut_with(ascii_lowering(), c.hotkey@) == Ok::<Shortcut, Seq<char>>(
            Shortcut {
                modifiers: Modifiers { control: false, alt: true, shift: true, super_key: false },
                key: Code::KeyS,
            },
        ),
{
    reveal_strlit("Alt+Shift+S");
    reveal_strlit("ctrl");
    reveal_strlit("control");
    reveal_strlit("alt");
    reveal_strlit("shift");
    reveal_strlit("super");
    reveal_strlit("cmd");
    reveal_strlit("command");
    reveal_strlit("a");
    reveal_strlit("b");
    reveal_strlit("c");
    reveal_strlit("d");
    reveal_strlit("e");
    reveal_strlit("f");
    reveal_strlit("g");
    reveal_strlit("h");
    reveal_strlit("i");
    reveal_strlit("j");
    reveal_strlit("k");
    reveal_strlit("l");
    reveal_strlit("m");
    reveal_strlit("n");
    reveal_strlit("o");
    reveal_strlit("p");
    reveal_strlit("q");
    reveal_strlit("r");
    reveal_strlit("s");
    let s = c.hotkey@;
    assert(s =~= seq!['A', 'l', 't', '+', 'S', 'h', 'i', 'f', 't', '+', 'S']);
    assert(is_ascii_text(s));
    let p0 = seq!['A', 'l', 't'];
    let p1 = seq!['S', 'h', 'i', 'f', 't'];
    let p2 = seq!['S'];
    assert(split_on(s, '+') =~~= seq![p0, p1, p2]) by {
        assert(s.take(4) =~= seq!['A', 'l', 't', '+']);
        assert(s.take(3) =~= p0);
        assert(s.take(2) =~= seq!['A', 'l']);
        assert(s.take(1) =~= seq!['A']);
        assert(s.take(0) =~= Seq::<char>::empty());
        assert(split_on(s.take(0), '+') =~~= seq![Seq::<char>::empty()]);
        assert(s.take(1).drop_last() =~= s.take(0));
        assert(split_on(s.take(1), '+') =~~= seq![seq!['A']]);
        assert(s.take(2).drop_last() =~= s.take(1));
        assert(split_on(s.take(2), '+') =~~= seq![seq!['A', 'l']]);
        assert(s.take(3).drop_last() =~= s.take(2));
        assert(split_on(s.take(3), '+') =~~= seq![p0]);
        assert(s.take(4).drop_last() =~= s.take(3));
        assert(split_on(s.take(4), '+') =~~= seq![p0, Seq::<char>::empty()]);
        assert(s.take(5).drop_last() =~= s.take(4));
        assert(split_on(s.take(5), '+') =~~= seq![p0, seq!['S']]);
        assert(s.take(6).drop_last() =~= s.take(5));
        assert(split_on(s.take(6), '+') =~~= seq![p0, seq!['S', 'h']]);
        assert(s.take(7).drop_last() =~= s.take(6));
        assert(split_on(s.take(7), '+') =~~= seq![p0, seq!['S', 'h', 'i']]);
        assert(s.take(8).drop_last() =~= s.take(7));
        assert(split_on(s.take(8), '+') =~~= seq![p0, seq!['S', 'h', 'i', 'f']]);
        assert(s.take(9).drop_last() =~= s.take(8));
        assert(split_on(s.take(9), '+') =~~= seq![p0, p1]);
        assert(s.take(10).drop_last() =~= s.take(9));
        assert(split_on(s.take(10), '+') =~~= seq![p0, p1, Seq::<char>::empty()]);
        assert(s.take(11).drop_last() =~= s.take(10));
        assert(s.take(11) =~= s);
        assert(split_on(s.take(11), '+') =~~= seq![p0, p1, p2]);
    }
    assert(trimmed(p0) == p0) by {
        assert(trim_start_spec(p0) == p0);
        assert(trim_end_spec(p0) == p0);
    }
    assert(trimmed(p1) == p1) by {
        assert(trim_start_spec(p1) == p1);
        assert(trim_end_spec(p1) == p1);
    }
    assert(trimmed(p2) == p2) by {
        assert(trim_start_spec(p2) == p2);
        assert(trim_end_spec(p2) == p2);
    }
    assert(ascii_lowering()(p0) =~= seq!['a', 'l', 't']);
    assert(ascii_lowering()(p1) =~= seq!['s', 'h', 'i', 'f', 't']);
    assert(ascii_lowering()(p2) =~= seq!['s']);
    assert("ctrl"@ =~= seq!['c', 't', 'r', 'l']);
    assert("control"@ =~= seq!['c', 'o', 'n', 't', 'r', 'o', 'l']);
    assert("alt"@ =~= seq!['a', 'l', 't']);
    assert("shift"@ =~= seq!['s', 'h', 'i', 'f', 't']);
    assert("super"@ =~= seq!['s', 'u', 'p', 'e', 'r']);
    assert("cmd"@ =~= seq!['c', 'm', 'd']);
    assert("command"@ =~= seq!['c', 'o', 'm', 'm', 'a', 'n', 'd']);
    assert("a"@ =~= seq!['a']);
    assert("b"@ =~= seq!['b']);
    assert("c"@ =~= seq!['c']);
    assert("d"@ =~= seq!['d']);
    assert("e"@ =~= seq!['e']);
    assert("f"@ =~= seq!['f']);
    assert("g"@ =~= seq!['g']);
    assert("h"@ =~= seq!['h']);
    assert("i"@ =~= seq!['i']);
    assert("j"@ =~= seq!['j']);
    assert("k"@ =~= seq!['k']);
    assert("l"@ =~= seq!['l']);
    assert("m"@ =~= seq!['m']);
    assert("n"@ =~= seq!['n']);
    assert("o"@ =~= seq!['o']);
    assert("p"@ =~= seq!['p']);
    assert("q"@ =~= seq!['q']);
    assert("r"@ =~= seq!['r']);
    assert("s"@ =~= seq!['s']);
    assert(modifier_named(seq!['a', 'l', 't']) == Some(crate::hotkey::Modifier::Alt));
    assert(modifier_named(seq!['s', 'h', 'i', 'f', 't']) == Some(crate::hotkey::Modifier::Shift));
    assert(modifier_named(seq!['s']) is None);
    assert(seq!['s'] != "a"@) by { assert(seq!['s'][0] != "a"@[0]); }
    assert(seq!['s'] != "b"@) by { assert(seq!['s'][0] != "b"@[0]); }
    assert(seq!['s'] != "c"@) by { assert(seq!['s'][0] != "c"@[0]); }
    assert(seq!['s'] != "d"@) by { assert(seq!['s'][0] != "d"@[0]); }
    assert(seq!['s'] != "e"@) by { assert(seq!['s'][0] != "e"@[0]); }
    assert(seq!['s'] != "f"@) by { assert(seq!['s'][0] != "f"@[0]); }
    assert(seq!['s'] != "g"@) by { assert(seq!['s'][0] != "g"@[0]); }
    assert(seq!['s'] != "h"@) by { assert(seq!['s'][0] != "h"@[0]); }
    assert(seq!['s'] != "i"@) by { assert(seq!['s'][0] != "i"@[0]); }
    assert(seq!['s'] != "j"@) by { assert(seq!['s'][0] != "j"@[0]); }
    assert(seq!['s'] != "k"@) by { assert(seq!['s'][0] != "k"@[0]); }
    assert(seq!['s'] != "l"@) by { assert(seq!['s'][0] != "l"@[0]); }
    assert(seq!['s'] != "m"@) by { assert(seq!['s'][0] != "m"@[0]); }
    assert(seq!['s'] != "n"@) by { assert(seq!['s'][0] != "n"@[0]); }
    assert(seq!['s'] != "o"@) by { assert(seq!['s'][0] != "o"@[0]); }
    assert(seq!['s'] != "p"@) by { assert(seq!['s'][0] != "p"@[0]); }
    assert(seq!['s'] != "q"@) by { assert(seq!['s'][0] != "q"@[0]); }
    assert(seq!['s'] != "r"@) by { assert(seq!['s'][0] != "r"@[0]); }
    assert(key_named(seq!['s']) == Some(Code::KeyS));
    let parts = seq![p0, p1, p2];
    assert(parts.drop_first() =~= seq![p1, p2]);
    assert(parts.drop_first().drop_first() =~= seq![p2]);
    assert(parts.drop_first().drop_first().drop_first() =~= Seq::<Seq<char>>::empty());
    reveal_with_fuel(read_parts_with, 4);
}

} // verus!
