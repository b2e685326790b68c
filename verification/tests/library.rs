use savepath::error::Error;
use savepath::parse::pap::{selection_for_key, ExtCmd, Key, Outcome, Selection};
use savepath::parse::parser::{parse_id, Id};
use savepath::parse::sap::{select_command, CMD};
use savepath::shell::{get_shell_template, shell_from_lowercase, BASH, CMD as CMD_TEMPLATE, FISH, POWERSHELL, ZSH};
use savepath::state::{Config, Entry};
use savepath::text::{decimal_string, join, parse_isize, replace_all, str_eq};
use savepath::utils::{components, config_dir_from, config_path_in, get_config_path, join_path, same_path};
use savepath::{add, alias_script, clear, create_modified_cmd, list, shell_from_str, substitute_path, Shell};

fn strings(words: &[&str]) -> Vec<String> {
    words.iter().map(|w| w.to_string()).collect()
}

fn config_of(paths: &[&str]) -> Config {
    Config::from_entries(paths.iter().map(|p| Entry::new(p.to_string())).collect())
}

fn paths_of(config: &Config) -> Vec<String> {
    config.iter().map(|e| e.path().clone()).collect()
}

#[test]
fn parse_isize_reads_signed_integers() {
    assert_eq!(parse_isize("0"), Some(0));
    assert_eq!(parse_isize("42"), Some(42));
    assert_eq!(parse_isize("-7"), Some(-7));
    assert_eq!(parse_isize("+5"), Some(5));
    assert_eq!(parse_isize("007"), Some(7));
    assert_eq!(parse_isize(&isize::MAX.to_string()), Some(isize::MAX));
    assert_eq!(parse_isize(&isize::MIN.to_string()), Some(isize::MIN));
}

#[test]
fn parse_isize_refuses_what_std_refuses() {
    for s in ["", "-", "+", "abc", "1a", " 1", "1 ", "--1", "+-1", "1.0", "١"] {
        assert_eq!(parse_isize(s), None, "{:?}", s);
        assert!(s.parse::<isize>().is_err());
    }
    let too_big = format!("{}0", isize::MAX);
    assert_eq!(parse_isize(&too_big), None);
    let just_over = (isize::MAX as i128 + 1).to_string();
    assert_eq!(parse_isize(&just_over), None);
    let just_under = (isize::MIN as i128 - 1).to_string();
    assert_eq!(parse_isize(&just_under), None);
}

#[test]
fn parse_isize_agrees_with_std() {
    for s in ["12", "-0", "+0", "99999", "-123456", "18446744073709551616", "x", "+", "0x10"] {
        assert_eq!(parse_isize(s), s.parse::<isize>().ok(), "{:?}", s);
    }
}

#[test]
fn parse_id_gives_id_or_message() {
    assert_eq!(parse_id("3"), Ok(Id(3)));
    assert_eq!(parse_id("-1"), Ok(Id(-1)));
    assert_eq!(parse_id("one"), Err(String::from("Couldn't parse file id. Must be integer.")));
}

#[test]
fn decimal_string_spells_numbers() {
    assert_eq!(decimal_string(0), "0");
    assert_eq!(decimal_string(9), "9");
    assert_eq!(decimal_string(10), "10");
    assert_eq!(decimal_string(12345), "12345");
    assert_eq!(decimal_string(usize::MAX), usize::MAX.to_string());
}

#[test]
fn listed_index_reads_back_as_id() {
    for n in [0usize, 1, 7, 10, 99, 100, 4096] {
        assert_eq!(parse_id(&decimal_string(n)), Ok(Id(n as isize)));
    }
}

#[test]
fn join_puts_separator_between_parts() {
    assert_eq!(join(&strings(&[]), " "), "");
    assert_eq!(join(&strings(&["a"]), " "), "a");
    assert_eq!(join(&strings(&["cp", "a", "b"]), " "), "cp a b");
    assert_eq!(join(&strings(&["x", "", "y"]), ", "), "x, , y");
}

#[test]
fn replace_all_matches_std_replace() {
    let cases = [
        ("aaa", "aa", "b"),
        ("abcabc", "bc", "X"),
        ("no match", "zz", "q"),
        ("SAVEPATH_ALIAS_PLACEHOLDER () {}", "SAVEPATH_ALIAS_PLACEHOLDER", "pap"),
        ("", "a", "b"),
        ("ééé", "é", "e"),
        ("ab", "", "x"),
        ("", "", "x"),
        ("é", "", "-"),
    ];
    for (s, p, r) in cases {
        assert_eq!(replace_all(s, p, r), s.replace(p, r), "{:?}", (s, p, r));
    }
}

#[test]
fn str_eq_compares_characters() {
    assert!(str_eq("abc", "abc"));
    assert!(!str_eq("abc", "abd"));
    assert!(!str_eq("abc", "ab"));
    assert!(str_eq("", ""));
}

#[test]
fn join_path_follows_path_join() {
    assert_eq!(join_path("/home/u", "a.txt"), "/home/u/a.txt");
    assert_eq!(join_path("/home/u/", "a.txt"), "/home/u/a.txt");
    assert_eq!(join_path("/home/u", "/etc/x"), "/etc/x");
    assert_eq!(join_path("", "a"), "a");
    for (b, n) in [("/home/u", "a.txt"), ("/home/u/", "d/e"), ("/x", "/y"), ("", "a"), ("rel", "b")] {
        let std_joined = std::path::Path::new(b).join(n);
        assert_eq!(join_path(b, n), std_joined.to_string_lossy(), "{:?}", (b, n));
    }
}

#[test]
fn config_path_is_config_ron_in_cache_dir() {
    assert_eq!(config_path_in(Some("/home/u/.cache/savepath".to_string())), Ok("/home/u/.cache/savepath/config.ron".to_string()));
    assert_eq!(config_path_in(None), Err(Error::ApplicationDirNotAccessible));
    match get_config_path() {
        Ok(p) => assert!(p.ends_with("/config.ron"), "{}", p),
        Err(e) => assert_eq!(e, Error::ApplicationDirNotAccessible),
    }
}

#[test]
fn shell_templates_are_the_alias_functions() {
    assert_eq!(get_shell_template(Shell::Zsh), ZSH);
    assert_eq!(get_shell_template(Shell::Bash), BASH);
    assert_eq!(get_shell_template(Shell::Fish), FISH);
    assert_eq!(get_shell_template(Shell::Cmd), CMD_TEMPLATE);
    assert_eq!(get_shell_template(Shell::Powershell), POWERSHELL);
    assert_eq!(FISH, "function SAVEPATH_ALIAS_PLACEHOLDER\n    savepathcmd $argv | source\nend\n");
    assert_eq!(CMD_TEMPLATE, "@echo off \nsavepathcmd !*& | source /C");
}

#[test]
fn shell_from_str_ignores_case() {
    assert_eq!(shell_from_str("zsh"), Some(Shell::Zsh));
    assert_eq!(shell_from_str("ZSH"), Some(Shell::Zsh));
    assert_eq!(shell_from_str("Bash"), Some(Shell::Bash));
    assert_eq!(shell_from_str("fIsH"), Some(Shell::Fish));
    assert_eq!(shell_from_str("cmd"), None);
    assert_eq!(shell_from_str("powershell"), None);
    assert_eq!(shell_from_str(""), None);
    assert_eq!(shell_from_str("zsh "), None);
    assert_eq!(shell_from_lowercase("ZSH"), None);
}

#[test]
fn alias_script_names_the_alias() {
    assert_eq!(
        alias_script(Some(Shell::Fish), "pap"),
        "function pap\n    savepathcmd $argv | source\nend\n"
    );
    assert_eq!(
        alias_script(None, "pp"),
        "function pp () {\n    SAP_CMD=$(\n        savepathcmd $@\n    ) && eval $SAP_CMD; \n}"
    );
    assert_eq!(alias_script(Some(Shell::Zsh), "x"), ZSH.replace("SAVEPATH_ALIAS_PLACEHOLDER", "x"));
    assert_eq!(alias_script(Some(Shell::Cmd), "x"), CMD_TEMPLATE);
}

#[test]
fn entry_build_takes_resolved_path_or_reports_target() {
    let e = Entry::build("/home/u", "a.txt", Some("/real/a.txt".to_string())).unwrap();
    assert_eq!(e.path(), "/real/a.txt");
    assert_eq!(Entry::build("/home/u", "a.txt", None), Err(Error::InvalidPath("/home/u/a.txt".to_string())));
    assert_eq!(Entry::target("/home/u", "../b"), "/home/u/../b");
}

#[test]
fn config_basics() {
    let empty = Config::empty();
    assert_eq!(empty.len(), 0);
    assert!(empty.is_empty());
    assert!(empty.get(0).is_none());
    let c = config_of(&["/a", "/b"]);
    assert_eq!(c.len(), 2);
    assert!(!c.is_empty());
    assert_eq!(c.get(0).unwrap().path(), "/a");
    assert_eq!(c.get(1).unwrap().path(), "/b");
    assert!(c.get(2).is_none());
    assert_eq!(paths_of(&c), strings(&["/a", "/b"]));
}

#[test]
fn extend_puts_new_entries_first() {
    let mut c = config_of(&["/old1", "/old2"]);
    let files = strings(&["x", "y"]);
    let resolved = vec![Some("/new/x".to_string()), Some("/new/y".to_string())];
    assert_eq!(c.extend("/new", &files, &resolved), Ok(()));
    assert_eq!(paths_of(&c), strings(&["/new/x", "/new/y", "/old1", "/old2"]));
}

#[test]
fn extend_fails_on_first_unresolved_and_changes_nothing() {
    let mut c = config_of(&["/old"]);
    let files = strings(&["x", "y", "z"]);
    let resolved = vec![Some("/w/x".to_string()), None, None];
    assert_eq!(c.extend("/w", &files, &resolved), Err(Error::InvalidPath("/w/y".to_string())));
    assert_eq!(paths_of(&c), strings(&["/old"]));
}

#[test]
fn create_vec_keeps_order() {
    let files = strings(&["a", "b"]);
    let resolved = vec![Some("/r/a".to_string()), Some("/r/b".to_string())];
    let v = Config::create_vec("/r", &files, &resolved).unwrap();
    let paths: Vec<String> = v.iter().map(|e| e.path().clone()).collect();
    assert_eq!(paths, strings(&["/r/a", "/r/b"]));
    assert!(Config::create_vec("/r", &strings(&[]), &vec![]).unwrap().is_empty());
}

#[test]
fn add_and_clear() {
    let mut c = Config::empty();
    assert_eq!(add(&mut c, "/d", &strings(&["f"]), &vec![Some("/d/f".to_string())]), Ok(()));
    assert_eq!(paths_of(&c), strings(&["/d/f"]));
    assert_eq!(add(&mut c, "/d", &strings(&["g"]), &vec![Some("/d/g".to_string())]), Ok(()));
    assert_eq!(c.get(0).unwrap().path(), "/d/g");
    assert_eq!(add(&mut c, "/d", &strings(&["h"]), &vec![None]), Err(Error::InvalidPath("/d/h".to_string())));
    assert_eq!(c.len(), 2);
    clear(&mut c);
    assert!(c.is_empty());
    c.clear();
    assert_eq!(c.len(), 0);
}

#[test]
fn modified_cmd_inserts_most_recent_path() {
    // cb add file.txt; cb cp file2.txt  runs  cp /PATH/TO/FILE/file.txt file2.txt
    let config = config_of(&["/PATH/TO/FILE/file.txt", "/PATH/TO/OLDER/FILE/older.txt"]);
    let cmd = ExtCmd::new(0, strings(&["cp", "file2.txt"]));
    assert_eq!(cmd.cur_pos, 1);
    assert_eq!(cmd.nargs, 2);
    assert_eq!(create_modified_cmd(&config, &cmd), Ok("cp \"/PATH/TO/FILE/file.txt\" file2.txt".to_string()));
    let older = ExtCmd::new(1, strings(&["cp", "file2.txt"]));
    assert_eq!(create_modified_cmd(&config, &older), Ok("cp \"/PATH/TO/OLDER/FILE/older.txt\" file2.txt".to_string()));
}

#[test]
fn modified_cmd_at_ends_and_bad_index() {
    let config = config_of(&["/p"]);
    let mut cmd = ExtCmd::new(0, strings(&["ls", "-l"]));
    cmd.cur_pos = 0;
    assert_eq!(create_modified_cmd(&config, &cmd), Ok("\"/p\" ls -l".to_string()));
    cmd.cur_pos = 2;
    assert_eq!(create_modified_cmd(&config, &cmd), Ok("ls -l \"/p\"".to_string()));
    let bad = ExtCmd::new(5, strings(&["ls"]));
    assert_eq!(create_modified_cmd(&config, &bad), Err(Error::IndexError(5)));
    assert_eq!(create_modified_cmd(&Config::empty(), &ExtCmd::new(0, strings(&["ls"]))), Err(Error::IndexError(0)));
}

#[test]
fn picker_moves_wrap_around() {
    let mut cmd = ExtCmd::new(0, strings(&["mv", "a", "b"]));
    assert_eq!(cmd.step(Selection::Right, 2), Outcome::Moved);
    assert_eq!(cmd.cur_pos, 2);
    cmd.step(Selection::Right, 2);
    assert_eq!(cmd.cur_pos, 3);
    cmd.step(Selection::Right, 2);
    assert_eq!(cmd.cur_pos, 0);
    cmd.step(Selection::Left, 2);
    assert_eq!(cmd.cur_pos, 3);
    cmd.step(Selection::Down, 2);
    assert_eq!(cmd.id, 1);
    cmd.step(Selection::Up, 2);
    assert_eq!(cmd.id, 0);
    cmd.step(Selection::Up, 2);
    assert_eq!(cmd.id, 1);
    cmd.step(Selection::Up, 2);
    assert_eq!(cmd.id, 0);
    assert_eq!(cmd.step(Selection::Accept, 2), Outcome::Accept);
    assert_eq!(cmd.step(Selection::Cancel, 2), Outcome::Cancel);
    assert_eq!((cmd.id, cmd.cur_pos, cmd.nargs), (0, 3, 3));
}

#[test]
fn picker_moves_undo_each_other() {
    for start in 0..=3usize {
        let mut cmd = ExtCmd::new(1, strings(&["a", "b", "c"]));
        cmd.cur_pos = start;
        cmd.step(Selection::Left, 4);
        cmd.step(Selection::Right, 4);
        assert_eq!(cmd.cur_pos, start);
        cmd.step(Selection::Right, 4);
        cmd.step(Selection::Left, 4);
        assert_eq!(cmd.cur_pos, start);
    }
    for id in 0..4usize {
        let mut cmd = ExtCmd::new(id, strings(&["a"]));
        cmd.step(Selection::Up, 4);
        cmd.step(Selection::Down, 4);
        assert_eq!(cmd.id, id);
        cmd.step(Selection::Down, 4);
        assert!(cmd.id < 4);
        cmd.step(Selection::Up, 4);
        assert_eq!(cmd.id, id);
    }
}

#[test]
fn keys_select_choices() {
    assert_eq!(selection_for_key(Key::Enter, false), Some(Selection::Accept));
    assert_eq!(selection_for_key(Key::Enter, true), Some(Selection::Accept));
    assert_eq!(selection_for_key(Key::Char('c'), true), Some(Selection::Cancel));
    assert_eq!(selection_for_key(Key::Char('c'), false), None);
    assert_eq!(selection_for_key(Key::Char('x'), true), None);
    assert_eq!(selection_for_key(Key::Left, false), Some(Selection::Left));
    assert_eq!(selection_for_key(Key::Right, false), Some(Selection::Right));
    assert_eq!(selection_for_key(Key::Up, false), Some(Selection::Up));
    assert_eq!(selection_for_key(Key::Down, true), Some(Selection::Down));
    assert_eq!(selection_for_key(Key::Other, false), None);
}

#[test]
fn sap_picks_request() {
    let files = Some(strings(&["a"]));
    assert_eq!(select_command(true, true, true, None, String::new(), files.clone()), Ok(CMD::List));
    assert_eq!(select_command(false, true, true, None, String::new(), files.clone()), Ok(CMD::Clear));
    assert_eq!(
        select_command(false, false, true, Some("pap".to_string()), "fish".to_string(), files.clone()),
        Ok(CMD::Alias { alias: "pap".to_string(), shell: "fish".to_string() })
    );
    assert_eq!(select_command(false, false, true, None, String::new(), files.clone()), Err(Error::ParseError));
    assert_eq!(
        select_command(false, false, false, Some("pap".to_string()), String::new(), files),
        Ok(CMD::Add { files: strings(&["a"]) })
    );
}

#[test]
fn list_renders_indices_and_paths() {
    let config = config_of(&["/x/one", "/y/two"]);
    let text = list(&config);
    let mut table = prettytable::Table::new();
    table.set_titles(prettytable::Row::new(vec![prettytable::Cell::new("Id"), prettytable::Cell::new("Path")]));
    table.add_row(prettytable::Row::new(vec![prettytable::Cell::new("0"), prettytable::Cell::new("/x/one")]));
    table.add_row(prettytable::Row::new(vec![prettytable::Cell::new("1"), prettytable::Cell::new("/y/two")]));
    table.set_format(*prettytable::format::consts::FORMAT_NO_BORDER_LINE_SEPARATOR);
    assert_eq!(text, format!("Clipboard:\n\n{}", table));
    assert!(text.starts_with("Clipboard:\n\n"));
    assert!(text.contains("/y/two"));
    assert!(list(&Config::empty()).contains("Path"));
}

#[test]
fn picker_cycles_through_every_place() {
    let mut cmd = ExtCmd::new(0, strings(&["a", "b", "c"]));
    let start = cmd.cur_pos;
    let mut seen = Vec::new();
    for _ in 0..4 {
        cmd.step(Selection::Right, 3);
        seen.push(cmd.cur_pos);
    }
    assert_eq!(cmd.cur_pos, start);
    seen.sort();
    assert_eq!(seen, vec![0, 1, 2, 3]);
    let mut ids = Vec::new();
    for _ in 0..3 {
        cmd.step(Selection::Up, 3);
        ids.push(cmd.id);
    }
    assert_eq!(ids, vec![1, 2, 0]);
}

#[test]
fn config_dir_is_what_the_lookup_found() {
    assert_eq!(config_dir_from(Some("/home/u/.cache/savepath".to_string())), Ok("/home/u/.cache/savepath".to_string()));
    assert_eq!(config_dir_from(None), Err(Error::ApplicationDirNotAccessible));
}

#[test]
fn entries_are_equal_when_their_paths_are() {
    assert!(Entry::new("/a".to_string()) == Entry::new("/a".to_string()));
    assert!(Entry::new("/a".to_string()) != Entry::new("/b".to_string()));
    assert!(Entry::new("/a/b/".to_string()) == Entry::new("/a/b".to_string()));
    assert!(Entry::new("/a//./b".to_string()) == Entry::new("/a/b".to_string()));
    assert!(Entry::new("a/b".to_string()) != Entry::new("/a/b".to_string()));
    assert_eq!(config_of(&["/a", "/b"]), config_of(&["/a", "/b"]));
    assert_ne!(config_of(&["/a"]), config_of(&["/a", "/b"]));
}

#[test]
fn dollar_words_take_the_path() {
    // cb add my_dir; cb -p rm -R -f $  runs  rm -R -f /PATH/TO/MY/DIR/my_dir
    let config = config_of(&["/PATH/TO/MY/DIR/my_dir", "/older"]);
    assert_eq!(
        substitute_path(&config, 0, &strings(&["rm", "-R", "-f", "$"])),
        Ok("rm -R -f \"/PATH/TO/MY/DIR/my_dir\"".to_string())
    );
    // cb add x.txt; cb -p mv $ $  runs  mv /PATH/TO/X/x.txt /PATH/TO/X/x.txt
    let x = config_of(&["/PATH/TO/X/x.txt"]);
    assert_eq!(
        substitute_path(&x, 0, &strings(&["mv", "$", "$"])),
        Ok("mv \"/PATH/TO/X/x.txt\" \"/PATH/TO/X/x.txt\"".to_string())
    );
    // only a whole `$` word is replaced
    assert_eq!(substitute_path(&x, 0, &strings(&["ls", "$/sub_dir"])), Ok("ls $/sub_dir".to_string()));
    assert_eq!(substitute_path(&x, 0, &strings(&["ls"])), Ok("ls".to_string()));
    assert_eq!(substitute_path(&x, 3, &strings(&["ls", "$"])), Err(Error::IndexError(3)));
}

#[test]
fn same_path_follows_path_equality() {
    let paths = [
        "", "/", "//", "/a", "/a/", "/a//b", "/a/./b", "/a/b", "a/b", "./a/b", ".", "./", "a/.", "a/..", "a/../",
        "/..", "..", "../a", "a", "a/b/c", "/a/b/c/", ".a", "a./b", "/./", "./.", "a//b//",
    ];
    for a in paths {
        for b in paths {
            assert_eq!(
                same_path(a, b),
                std::path::Path::new(a) == std::path::Path::new(b),
                "{:?} {:?}",
                (a, b),
                (std::path::Path::new(a).components().collect::<Vec<_>>(), std::path::Path::new(b).components().collect::<Vec<_>>())
            );
        }
    }
    assert_eq!(components("/a//b/./c/"), strings(&["a", "b", "c"]));
    assert_eq!(components("./x/.."), strings(&["x", ".."]));
}
