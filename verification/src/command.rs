//! Command lines and the environment a tool is started in.
//!
//! A command line is cut at every single space: the first piece names the
//! tool, the others are its arguments. Nothing is quoted or escaped. The
//! environment is the caller's own, with the TPM server's address set and the
//! directory of the tools appended to the search path.

use vstd::prelude::*;

verus! {

/// The directory that holds the tools of the TPM suite.
pub const TPM_TOOLS_PATH: &'static str = "/usr/local/bin/";

/// The variable that holds the search path.
pub const PATH_VAR: &'static str = "PATH";

/// The variable that holds the port of the TPM server.
pub const PORT_VAR: &'static str = "TPM_SERVER_PORT";

/// The port of the TPM server.
pub const TPM_SERVER_PORT: &'static str = "9998";

/// The variable that holds the host name of the TPM server.
pub const NAME_VAR: &'static str = "TPM_SERVER_NAME";

/// The host name of the TPM server.
pub const TPM_SERVER_NAME: &'static str = "localhost";

/// The texts of a list of strings.
pub open spec fn texts(strings: Seq<String>) -> Seq<Seq<char>> {
    Seq::new(strings.len(), |i: int| strings[i]@)
}

/// The pieces written one after the other with a single space between
/// neighbours.
pub open spec fn joined(pieces: Seq<Seq<char>>) -> Seq<char>
    decreases pieces.len(),
{
    if pieces.len() == 0 {
        Seq::empty()
    } else if pieces.len() == 1 {
        pieces[0]
    } else {
        joined(pieces.drop_last()) + seq![' '] + pieces.last()
    }
}

/// No piece holds a space.
pub open spec fn space_free(pieces: Seq<Seq<char>>) -> bool {
    forall|i: int, j: int|
        0 <= i < pieces.len() && 0 <= j < pieces[i].len() ==> #[trigger] pieces[i][j] != ' '
}

/// `pieces` is `line` cut at every space: there is at least one piece, none
/// holds a space, and joined by single spaces they give the line back.
pub open spec fn is_split_of(pieces: Seq<Seq<char>>, line: Seq<char>) -> bool {
    &&& pieces.len() >= 1
    &&& space_free(pieces)
    &&& joined(pieces) == line
}

/// What an environment gives for each name: of several entries with one
/// name the last counts.
pub open spec fn env_map(vars: Seq<(String, String)>) -> Map<Seq<char>, Seq<char>>
    decreases vars.len(),
{
    if vars.len() == 0 {
        Map::empty()
    } else {
        env_map(vars.drop_last()).insert(vars.last().0@, vars.last().1@)
    }
}

/// The environment of a tool, given the caller's: the server's port and
/// name are set, and the tools' directory is appended to the search path as
/// it is configured.
pub open spec fn tool_env(inherited: Map<Seq<char>, Seq<char>>) -> Map<Seq<char>, Seq<char>> {
    inherited.insert(PORT_VAR@, TPM_SERVER_PORT@).insert(NAME_VAR@, TPM_SERVER_NAME@).insert(
        PATH_VAR@,
        inherited[PATH_VAR@] + TPM_TOOLS_PATH@,
    )
}

/// A line that starts with a piece starts with that piece's characters, and
/// a space follows the first piece where there are more.
proof fn lemma_joined_starts_with_first(pieces: Seq<Seq<char>>)
    requires
        pieces.len() >= 1,
    ensures
        joined(pieces).len() >= pieces[0].len(),
        joined(pieces).take(pieces[0].len() as int) == pieces[0],
        pieces.len() == 1 ==> joined(pieces) == pieces[0],
        pieces.len() > 1 ==> joined(pieces).len() > pieces[0].len() && joined(
            pieces,
        )[pieces[0].len() as int] == ' ',
    decreases pieces.len(),
{
    if pieces.len() == 1 {
        assert(joined(pieces).take(pieces[0].len() as int) =~= pieces[0]);
    } else {
        let front = pieces.drop_last();
        lemma_joined_starts_with_first(front);
        assert(front[0] == pieces[0]);
        assert(joined(pieces).take(pieces[0].len() as int) =~= joined(front).take(
            pieces[0].len() as int,
        ));
    }
}

/// The first piece of a split line is empty exactly when the line is empty
/// or starts with a space.
pub proof fn lemma_first_piece_empty(pieces: Seq<Seq<char>>, line: Seq<char>)
    requires
        is_split_of(pieces, line),
    ensures
        pieces[0].len() == 0 <==> (line.len() == 0 || line[0] == ' '),
{
    lemma_joined_starts_with_first(pieces);
    if pieces[0].len() > 0 {
        assert(line.take(pieces[0].len() as int)[0] == pieces[0][0]);
    }
}

/// A line ends with its last piece, and a space stands before the last piece
/// where there are more; what is before that space is the other pieces
/// joined.
proof fn lemma_joined_ends_with_last(pieces: Seq<Seq<char>>)
    requires
        pieces.len() >= 1,
    ensures
        joined(pieces).len() >= pieces.last().len(),
        joined(pieces).skip(joined(pieces).len() - pieces.last().len()) == pieces.last(),
        pieces.len() == 1 ==> joined(pieces).len() == pieces.last().len(),
        pieces.len() > 1 ==> {
            let cut = joined(pieces).len() - pieces.last().len() - 1;
            &&& cut >= 0
            &&& joined(pieces)[cut] == ' '
            &&& joined(pieces).take(cut) == joined(pieces.drop_last())
        },
{
    let line = joined(pieces);
    let last = pieces.last();
    if pieces.len() == 1 {
        assert(line.skip(0) =~= last);
    } else {
        let cut = line.len() - last.len() - 1;
        assert(line.skip(cut + 1) =~= last);
        assert(line.take(cut) =~= joined(pieces.drop_last()));
    }
}

/// A line is cut at its spaces in one way only.
pub proof fn lemma_split_is_unique(first: Seq<Seq<char>>, second: Seq<Seq<char>>, line: Seq<char>)
    requires
        is_split_of(first, line),
        is_split_of(second, line),
    ensures
        first == second,
    decreases first.len(),
{
    let n = line.len() as int;
    let a = first.last();
    let b = second.last();
    lemma_joined_ends_with_last(first);
    lemma_joined_ends_with_last(second);
    if a.len() < b.len() {
        if first.len() > 1 {
            let at = n - a.len() - 1;
            assert(line[at] == ' ');
            assert(line.skip(n - b.len())[at - (n - b.len())] == line[at]);
            assert(second[second.len() - 1][at - (n - b.len())] != ' ');
        }
        assert(false);
    }
    if b.len() < a.len() {
        if second.len() > 1 {
            let at = n - b.len() - 1;
            assert(line[at] == ' ');
            assert(line.skip(n - a.len())[at - (n - a.len())] == line[at]);
            assert(first[first.len() - 1][at - (n - a.len())] != ' ');
        }
        assert(false);
    }
    assert(a == b);
    if first.len() == 1 {
        assert(second.len() == 1);
        assert(first =~= second);
    } else {
        assert(second.len() > 1);
        let rest = line.take(n - a.len() - 1);
        let front = first.drop_last();
        let other = second.drop_last();
        assert forall|i: int, j: int|
            0 <= i < front.len() && 0 <= j < front[i].len() implies #[trigger] front[i][j]
            != ' ' by {
            assert(front[i] == first[i]);
        }
        assert forall|i: int, j: int|
            0 <= i < other.len() && 0 <= j < other[i].len() implies #[trigger] other[i][j]
            != ' ' by {
            assert(other[i] == second[i]);
        }
        lemma_split_is_unique(front, other, rest);
        assert(first =~= front.push(a));
        assert(second =~= other.push(b));
    }
}

/// Cuts a command line at every space.
pub fn tokenize(line: &str) -> (pieces: Vec<String>)
    ensures
        is_split_of(texts(pieces@), line@),
{
    let len = line.unicode_len();
    let mut pieces: Vec<String> = Vec::new();
    let mut start: usize = 0;
    let mut i: usize = 0;
    while i < len
        invariant
            start <= i <= len,
            len == line@.len(),
            forall|k: int| start <= k < i ==> line@[k] != ' ',
            space_free(texts(pieces@)),
            pieces@.len() == 0 ==> start == 0,
            pieces@.len() > 0 ==> joined(texts(pieces@)) + seq![' '] == line@.take(start as int),
        decreases len - i,
    {
        if line.get_char(i) == ' ' {
            let piece = line.substring_char(start, i).to_owned();
            let ghost before = texts(pieces@);
            pieces.push(piece);
            proof {
                let after = texts(pieces@);
                assert(after.drop_last() =~= before);
                assert(after.last() == line@.subrange(start as int, i as int));
                assert forall|a: int, b: int|
                    0 <= a < after.len() && 0 <= b < after[a].len() implies #[trigger] after[a][b]
                    != ' ' by {
                    if a < before.len() {
                        assert(after[a] == before[a]);
                    }
                }
                assert(joined(after) + seq![' '] =~= line@.take(i + 1));
            }
            start = i + 1;
        }
        i += 1;
    }
    let piece = line.substring_char(start, len).to_owned();
    let ghost before = texts(pieces@);
    pieces.push(piece);
    proof {
        let after = texts(pieces@);
        assert(after.drop_last() =~= before);
        assert(after.last() == line@.subrange(start as int, len as int));
        assert forall|a: int, b: int|
            0 <= a < after.len() && 0 <= b < after[a].len() implies #[trigger] after[a][b]
            != ' ' by {
            if a < before.len() {
                assert(after[a] == before[a]);
            }
        }
        assert(joined(after) =~= line@);
    }
    pieces
}

/// Where the last entry with a name stands, the environment gives that
/// entry's value for the name.
proof fn lemma_env_map_last_entry(vars: Seq<(String, String)>, name: Seq<char>, at: int)
    requires
        0 <= at < vars.len(),
        vars[at].0@ == name,
        forall|k: int| at < k < vars.len() ==> vars[k].0@ != name,
    ensures
        env_map(vars).contains_key(name),
        env_map(vars)[name] == vars[at].1@,
    decreases vars.len(),
{
    if at < vars.len() - 1 {
        lemma_env_map_last_entry(vars.drop_last(), name, at);
    }
}

/// Where no entry has a name, the environment gives nothing for it.
proof fn lemma_env_map_no_entry(vars: Seq<(String, String)>, name: Seq<char>)
    requires
        forall|k: int| 0 <= k < vars.len() ==> vars[k].0@ != name,
    ensures
        !env_map(vars).contains_key(name),
    decreases vars.len(),
{
    if vars.len() > 0 {
        lemma_env_map_no_entry(vars.drop_last(), name);
    }
}

/// The value of the last entry of `vars` named `name`, if there is one.
pub fn lookup(vars: &Vec<(String, String)>, name: &str) -> (value: Option<String>)
    ensures
        match value {
            Some(v) => env_map(vars@).contains_key(name@) && env_map(vars@)[name@] == v@,
            None => !env_map(vars@).contains_key(name@),
        },
{
    let wanted = name.to_owned();
    let mut i: usize = vars.len();
    while i > 0
        invariant
            i <= vars.len(),
            wanted@ == name@,
            forall|k: int| i <= k < vars.len() ==> vars[k].0@ != name@,
        decreases i,
    {
        i -= 1;
        if vars[i].0 == wanted {
            proof {
                lemma_env_map_last_entry(vars@, name@, i as int);
            }
            return Some(vars[i].1.clone());
        }
    }
    proof {
        lemma_env_map_no_entry(vars@, name@);
    }
    None
}

/// The environment of a tool, from the caller's: `None` where the caller's
/// has no search path.
pub fn tool_environment(inherited: Vec<(String, String)>) -> (env: Option<Vec<(String, String)>>)
    ensures
        match env {
            Some(vars) => env_map(inherited@).contains_key(PATH_VAR@) && env_map(vars@)
                == tool_env(env_map(inherited@)),
            None => !env_map(inherited@).contains_key(PATH_VAR@),
        },
{
    match lookup(&inherited, PATH_VAR) {
        None => None,
        Some(mut path) => {
            path.append(TPM_TOOLS_PATH);
            let mut vars = inherited;
            let ghost v0 = vars@;
            vars.push((PORT_VAR.to_owned(), TPM_SERVER_PORT.to_owned()));
            let ghost v1 = vars@;
            vars.push((NAME_VAR.to_owned(), TPM_SERVER_NAME.to_owned()));
            let ghost v2 = vars@;
            vars.push((PATH_VAR.to_owned(), path));
            proof {
                assert(v1.drop_last() =~= v0);
                assert(v2.drop_last() =~= v1);
                assert(vars@.drop_last() =~= v2);
                assert(env_map(v1) == env_map(v0).insert(PORT_VAR@, TPM_SERVER_PORT@));
                assert(env_map(v2) == env_map(v1).insert(NAME_VAR@, TPM_SERVER_NAME@));
                assert(env_map(vars@) == env_map(v2).insert(PATH_VAR@, path@));
            }
            Some(vars)
        },
    }
}

} // verus!
