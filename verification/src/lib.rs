//! A small clipboard for file paths: paths are saved, listed, and spliced
//! into shell commands.
use vstd::prelude::*;

pub mod error;
pub mod parse;
pub mod parser;
pub mod shell;
pub mod state;
pub mod text;
pub mod utils;

pub use crate::shell::{alias_script, shell_from_str, Shell};

use crate::error::Error;
use crate::parse::pap::ExtCmd;
use crate::state::{reports_first_unresolved, resolved_paths, resolved_upto, Config};
use crate::text::{decimal, decimal_string, digits_value, is_digit, join, joined, lemma_decimal_digits, lemma_joined_append, str_eq};

verus! {

/// `path` between double quotes.
pub open spec fn quoted(path: Seq<char>) -> Seq<char> {
    seq!['"'] + path + seq!['"']
}

/// The command line `args` with the quoted `path` inserted as the word at
/// position `pos`, words separated by single spaces.
pub open spec fn modified_command(path: Seq<char>, args: Seq<Seq<char>>, pos: int) -> Seq<char> {
    joined(args.insert(pos, quoted(path)), seq![' '])
}

/// The command with a saved path spliced in is: the words before the
/// insertion point joined by spaces and a space, then a double quote, the
/// path exactly as saved and a double quote, then a space and the words from
/// the insertion point on. Whatever characters the path holds, it stays one
/// quoted word.
pub proof fn lemma_path_spliced_quoted(path: Seq<char>, args: Seq<Seq<char>>, pos: int)
    requires
        0 <= pos <= args.len(),
    ensures
        modified_command(path, args, pos) == (if pos == 0 {
            Seq::<char>::empty()
        } else {
            joined(args.take(pos), seq![' ']) + seq![' ']
        }) + seq!['"'] + path + seq!['"'] + (if pos == args.len() {
            Seq::<char>::empty()
        } else {
            seq![' '] + joined(args.skip(pos), seq![' '])
        }),
{
    let q = seq!['"'] + path + seq!['"'];
    let sp = seq![' '];
    let before = args.take(pos);
    let after = args.skip(pos);
    let one = seq![q];
    assert(joined(one, sp) == q);
    if pos == 0 {
        if args.len() == 0 {
            assert(args.insert(pos, q) =~= one);
            assert(Seq::<char>::empty() + q + Seq::<char>::empty() =~= seq!['"'] + path + seq!['"']);
        } else {
            assert(args.insert(pos, q) =~= one + args);
            assert(after =~= args);
            lemma_joined_append(one, args, sp);
            assert(Seq::<char>::empty() + seq!['"'] + path + seq!['"'] + (sp + joined(after, sp))
                =~= q + sp + joined(args, sp));
        }
    } else if pos == args.len() {
        assert(args.insert(pos, q) =~= args + one);
        assert(before =~= args);
        lemma_joined_append(args, one, sp);
        assert(joined(before, sp) + sp + seq!['"'] + path + seq!['"'] + Seq::<char>::empty()
            =~= joined(args, sp) + sp + q);
    } else {
        assert(args.insert(pos, q) =~= (before + one) + after);
        lemma_joined_append(before, one, sp);
        lemma_joined_append(before + one, after, sp);
        assert(joined(before, sp) + sp + seq!['"'] + path + seq!['"'] + (sp + joined(after, sp))
            =~= joined(before, sp) + sp + q + sp + joined(after, sp));
    }
}

/// The command line of `ext_cmd` with the saved path `ext_cmd.id`, quoted,
/// inserted as the word at `ext_cmd.cur_pos`; an error where the clipboard
/// holds no path at that index.
pub fn create_modified_cmd(config: &Config, ext_cmd: &ExtCmd) -> (r: Result<String, Error>)
    requires
        ext_cmd.id < config@.len() ==> ext_cmd.cur_pos <= ext_cmd.cmd_args.len(),
    ensures
        ext_cmd.id < config@.len() ==> (r matches Ok(s) && s@ == modified_command(
            config@[ext_cmd.id as int],
            ext_cmd.cmd_args.deep_view(),
            ext_cmd.cur_pos as int,
        )),
        ext_cmd.id >= config@.len() ==> r == Err::<String, Error>(Error::IndexError(ext_cmd.id)),
{
    let path_entry = match config.get(ext_cmd.id) {
        Some(p) => p,
        None => return Err(Error::IndexError(ext_cmd.id)),
    };
    proof {
        reveal_strlit("\"");
        reveal_strlit(" ");
    }
    let id_path = String::from_str("\"").concat(path_entry.path().as_str()).concat("\"");
    let ghost q = id_path@;
    assert(q =~= quoted(config@[ext_cmd.id as int]));
    assert(" "@ =~= seq![' ']);
    let mut cmd_args = ext_cmd.cmd_args.clone();
    assert(cmd_args.deep_view() =~= ext_cmd.cmd_args.deep_view()) by {
        assert forall|i: int| 0 <= i < cmd_args.len() implies cmd_args[i]@ == ext_cmd.cmd_args[i]@ by {
            assert(cloned::<String>(ext_cmd.cmd_args[i], cmd_args[i]));
        }
    }
    let ghost before = cmd_args.deep_view();
    cmd_args.insert(ext_cmd.cur_pos, id_path);
    assert(cmd_args.deep_view() =~= before.insert(ext_cmd.cur_pos as int, q));
    Ok(join(&cmd_args, " "))
}

/// The words `args` with every word that is exactly `$` replaced by the
/// quoted `path`.
pub open spec fn substituted(path: Seq<char>, args: Seq<Seq<char>>) -> Seq<Seq<char>> {
    args.map_values(|a: Seq<char>| if a == seq!['$'] { quoted(path) } else { a })
}

/// Substitution keeps the number of words; each word that is exactly `$`
/// becomes a double quote, the path exactly as saved and a double quote, and
/// every other word stays as it is.
pub proof fn lemma_dollar_words_quoted(path: Seq<char>, args: Seq<Seq<char>>)
    ensures
        substituted(path, args).len() == args.len(),
        forall|i: int| 0 <= i < args.len() ==> #[trigger] substituted(path, args)[i] == (if args[i] == seq!['$'] {
            seq!['"'] + path + seq!['"']
        } else {
            args[i]
        }),
{
}

/// The command line `args`, words separated by single spaces, with every word
/// that is exactly `$` replaced by the quoted saved path `id` (a `$` inside a
/// longer word stays); an error where the clipboard holds no path at `id`.
pub fn substitute_path(config: &Config, id: usize, args: &Vec<String>) -> (r: Result<String, Error>)
    ensures
        id < config@.len() ==> (r matches Ok(s) && s@ == joined(
            substituted(config@[id as int], args.deep_view()),
            seq![' '],
        )),
        id >= config@.len() ==> r == Err::<String, Error>(Error::IndexError(id)),
{
    let path_entry = match config.get(id) {
        Some(p) => p,
        None => return Err(Error::IndexError(id)),
    };
    proof {
        reveal_strlit("\"");
        reveal_strlit(" ");
        reveal_strlit("$");
    }
    let id_path = String::from_str("\"").concat(path_entry.path().as_str()).concat("\"");
    assert(id_path@ =~= quoted(config@[id as int]));
    assert(" "@ =~= seq![' ']);
    assert("$"@ =~= seq!['$']);
    let ghost target = substituted(config@[id as int], args.deep_view());
    let mut words: Vec<String> = Vec::new();
    let n = args.len();
    let mut i: usize = 0;
    while i < n
        invariant
            n == args.len(),
            i <= n,
            words.len() == i,
            id_path@ == quoted(config@[id as int]),
            "$"@ == seq!['$'],
            target == substituted(config@[id as int], args.deep_view()),
            words.deep_view() =~= target.take(i as int),
        decreases n - i,
    {
        let word = if str_eq(args[i].as_str(), "$") {
            id_path.clone()
        } else {
            args[i].clone()
        };
        assert(word@ == target[i as int]);
        let ghost prev = words.deep_view();
        words.push(word);
        assert(words.deep_view() =~= prev.push(target[i as int]));
        assert(words.deep_view() =~= target.take(i + 1));
        i = i + 1;
    }
    assert(target.take(n as int) =~= target);
    Ok(join(&words, " "))
}

/// Name for the text that `prettytable` renders (its `Display` output) for a
/// table with the title cells `titles` and the rows `rows`, each cell holding
/// the given text, in the format `FORMAT_NO_BORDER_LINE_SEPARATOR`.
pub uninterp spec fn table_text(titles: Seq<Seq<char>>, rows: Seq<Seq<Seq<char>>>) -> Seq<char>;

/// Whether `s` holds no escape character (`\u{1b}`).
pub open spec fn escape_free(s: Seq<char>) -> bool {
    forall|i: int| 0 <= i < s.len() ==> s[i] != '\u{1b}'
}

/// Builds a `prettytable::Table` with these titles and rows, sets the format
/// `FORMAT_NO_BORDER_LINE_SEPARATOR` and renders it with `to_string`. The
/// contract claims only that the text is `table_text` of the cells' texts.
/// `Cell::new` measures each cell and panics on some texts that hold an escape
/// character (after `ESC [` it counts visible characters as hidden and
/// asserts that they do not outnumber the width); cells without one are
/// required.
#[verifier::external_body]
fn render_table(titles: &Vec<String>, rows: &Vec<Vec<String>>) -> (r: String)
    requires
        forall|i: int| 0 <= i < titles.len() ==> escape_free(#[trigger] titles[i]@),
        forall|i: int, j: int| 0 <= i < rows.len() && 0 <= j < rows[i].len()
            ==> escape_free(#[trigger] rows[i][j]@),
    ensures
        r@ == table_text(titles.deep_view(), rows.deep_view()),
{
    let mut table = prettytable::Table::new();
    let mut title_cells = Vec::new();
    for t in titles {
        title_cells.push(prettytable::Cell::new(t));
    }
    table.set_titles(prettytable::Row::new(title_cells));
    for row in rows {
        let mut cells = Vec::new();
        for c in row {
            cells.push(prettytable::Cell::new(c));
        }
        table.add_row(prettytable::Row::new(cells));
    }
    table.set_format(*prettytable::format::consts::FORMAT_NO_BORDER_LINE_SEPARATOR);
    table.to_string()
}

/// The titles of the listing.
pub open spec fn listing_titles() -> Seq<Seq<char>> {
    seq!["Id"@, "Path"@]
}

/// The rows of the listing: each saved path after its index.
pub open spec fn listing_rows(paths: Seq<Seq<char>>) -> Seq<Seq<Seq<char>>> {
    Seq::new(paths.len(), |i: int| seq![decimal(i as nat), paths[i]])
}

/// The line that heads the listing, and the blank line after it.
pub open spec fn listing_header() -> Seq<char> {
    "Clipboard:\n\n"@
}

/// The listing has exactly one row per saved path, in order: row `i` holds
/// the decimal index `i`, which reads back as `i`, and the `i`-th path.
pub proof fn lemma_listing_one_row_per_path(paths: Seq<Seq<char>>)
    ensures
        listing_rows(paths).len() == paths.len(),
        forall|i: int| 0 <= i < paths.len() ==> (#[trigger] listing_rows(paths)[i]).len() == 2
            && listing_rows(paths)[i][1] == paths[i]
            && digits_value(listing_rows(paths)[i][0]) == i,
{
    assert forall|i: int| 0 <= i < paths.len() implies (#[trigger] listing_rows(paths)[i]).len() == 2
        && listing_rows(paths)[i][1] == paths[i]
        && digits_value(listing_rows(paths)[i][0]) == i by {
        lemma_decimal_digits(i as nat);
    }
}

/// The listing of the saved paths: a `Clipboard:` line, a blank line, then
/// the table of the paths, each with the index by which a command can name it.
/// The table cannot be drawn for every path that holds an escape character,
/// so paths without one are required.
pub fn list(config: &Config) -> (r: String)
    requires
        forall|i: int| 0 <= i < config@.len() ==> escape_free(#[trigger] config@[i]),
    ensures
        r@ == listing_header() + table_text(listing_titles(), listing_rows(config@)),
{
    let titles = vec![String::from_str("Id"), String::from_str("Path")];
    assert(titles.deep_view() =~= listing_titles());
    let mut rows: Vec<Vec<String>> = Vec::new();
    let n = config.len();
    let mut i: usize = 0;
    while i < n
        invariant
            n == config@.len(),
            i <= n,
            rows.len() == i,
            rows.deep_view() =~= listing_rows(config@).take(i as int),
        decreases n - i,
    {
        let entry = config.get(i).unwrap();
        let row = vec![decimal_string(i), entry.path().clone()];
        assert(row.deep_view() =~= listing_rows(config@)[i as int]);
        let ghost prev = rows.deep_view();
        let ghost last = row.deep_view();
        rows.push(row);
        assert(rows.deep_view() =~= prev.push(last));
        assert(rows.deep_view() =~= listing_rows(config@).take(i + 1));
        i = i + 1;
    }
    assert(listing_rows(config@).take(n as int) =~= listing_rows(config@));
    proof {
        reveal_strlit("Id");
        reveal_strlit("Path");
        assert forall|i: int, j: int| 0 <= i < rows.len() && 0 <= j < rows[i].len()
            implies escape_free(#[trigger] rows[i][j]@) by {
            assert(rows.deep_view()[i] == rows[i].deep_view());
            assert(rows[i].deep_view()[j] == rows[i][j]@);
            assert(rows.deep_view()[i] == listing_rows(config@)[i]);
            if j == 0 {
                lemma_decimal_digits(i as nat);
                let d = decimal(i as nat);
                assert forall|k: int| 0 <= k < d.len() implies d[k] != '\u{1b}' by {
                    assert(is_digit(d[k]));
                }
            }
        }
    }
    let table = render_table(&titles, &rows);
    String::from_str("Clipboard:\n\n").concat(table.as_str())
}

/// Saves `files`, given in the working directory `cur_dir`, in front of the
/// saved paths; `resolved[i]` is the outcome of resolving
/// `Entry::target(cur_dir, files[i])`. Where one could not be resolved,
/// nothing is saved and the error names the first such path.
pub fn add(config: &mut Config, cur_dir: &str, files: &Vec<String>, resolved: &Vec<Option<String>>) -> (r: Result<(), Error>)
    requires
        files.len() == resolved.len(),
    ensures
        r is Ok <==> resolved_upto(resolved@, resolved.len() as int),
        r is Ok ==> final(config)@ == resolved_paths(resolved@) + old(config)@,
        r matches Err(e) ==> final(config)@ == old(config)@
            && reports_first_unresolved(e, cur_dir@, files@, resolved@),
{
    config.extend(cur_dir, files, resolved)
}

/// Forgets every saved path.
pub fn clear(config: &mut Config)
    ensures
        final(config)@ == Seq::<Seq<char>>::empty(),
{
    config.clear()
}

} // verus!
