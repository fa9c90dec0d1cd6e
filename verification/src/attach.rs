//! `@path` tokens: which directory a token being typed looks into.

use vstd::prelude::*;

use crate::text::{
    cat2, cat3, chars_of, skip_chars, starts_with, starts_with_char, starts_with_character,
    starts_with_text, string_of,
};

verus! {

/// `rest` taken as a path relative to `base`: appended with a separator
/// between them, or standing alone where it is absolute.
pub open spec fn joined(base: Seq<char>, rest: Seq<char>) -> Seq<char> {
    if starts_with_char(rest, '/') {
        rest
    } else if base.len() == 0 || base.last() == '/' {
        base + rest
    } else {
        base + "/"@ + rest
    }
}

fn join_path(base: &str, rest: &str) -> (out: String)
    ensures
        out@ == joined(base@, rest@),
{
    if starts_with_character(rest, '/') {
        return String::from_str(rest);
    }
    let cs = chars_of(base);
    if cs.len() == 0 || cs[cs.len() - 1] == '/' {
        cat2(base, rest)
    } else {
        cat3(base, "/", rest)
    }
}

/// Length of the part of a token up to its last slash, that slash included.
pub open spec fn dir_len(token: Seq<char>) -> nat
    decreases token.len(),
{
    if token.len() == 0 || token.last() == '/' {
        token.len()
    } else {
        dir_len(token.drop_last())
    }
}

pub proof fn lemma_dir_len(token: Seq<char>)
    ensures
        dir_len(token) <= token.len(),
        dir_len(token) > 0 ==> token[dir_len(token) - 1] == '/',
        forall|i: int| dir_len(token) <= i < token.len() ==> #[trigger] token[i] != '/',
    decreases token.len(),
{
    if token.len() > 0 && token.last() != '/' {
        lemma_dir_len(token.drop_last());
        assert forall|i: int| dir_len(token) <= i < token.len() implies #[trigger] token[i] != '/' by {
            if i < token.len() - 1 {
                assert(token.drop_last()[i] == token[i]);
            }
        }
    }
}

/// The directory that a token names: `~/` stands for the home directory
/// where there is one, an absolute path for itself, one that starts with
/// `./` or `../` is taken from the working directory, and any other from the
/// workspace.
pub open spec fn token_dir(
    dir: Seq<char>,
    workspace: Seq<char>,
    cwd: Seq<char>,
    home: Option<Seq<char>>,
) -> Seq<char> {
    if dir.len() == 0 {
        workspace
    } else if starts_with(dir, "~/"@) {
        match home {
            Some(h) => joined(h, dir.skip(2)),
            None => joined(workspace, dir),
        }
    } else if starts_with_char(dir, '/') {
        dir
    } else if starts_with(dir, "./"@) || starts_with(dir, "../"@) {
        joined(cwd, dir)
    } else {
        joined(workspace, dir)
    }
}

/// Splits a token, given without its `@`, into the directory to look into
/// and the name to complete.
pub fn split_at_token(
    token: &str,
    workspace_root: &str,
    cwd: &str,
    home: Option<&str>,
) -> (out: (String, String))
    ensures
        out.0@ == token_dir(
            token@.take(dir_len(token@) as int),
            workspace_root@,
            cwd@,
            match home {
                Some(h) => Some(h@),
                None => None,
            },
        ),
        out.1@ == token@.skip(dir_len(token@) as int),
{
    let cs = chars_of(token);
    let mut n: usize = cs.len();
    assert(cs@.take(n as int) =~= cs@);
    while n > 0 && cs[n - 1] != '/'
        invariant
            n <= cs@.len(),
            dir_len(cs@.take(n as int)) == dir_len(token@),
        decreases n,
    {
        assert(cs@.take(n as int).drop_last() =~= cs@.take(n - 1));
        n = n - 1;
    }
    let dir = string_of(&cs, 0, n);
    let name = string_of(&cs, n, cs.len());
    assert(cs@.subrange(0, n as int) =~= cs@.take(n as int));
    assert(cs@.subrange(n as int, cs@.len() as int) =~= cs@.skip(n as int));
    let d = dir.as_str();
    let path = if n == 0 {
        String::from_str(workspace_root)
    } else if starts_with_text(d, "~/") {
        proof {
            reveal_strlit("~/");
        }
        match home {
            Some(h) => join_path(h, skip_chars(d, 2).as_str()),
            None => join_path(workspace_root, d),
        }
    } else if starts_with_character(d, '/') {
        String::from_str(d)
    } else if starts_with_text(d, "./") || starts_with_text(d, "../") {
        join_path(cwd, d)
    } else {
        join_path(workspace_root, d)
    };
    (path, name)
}

/// A token is its directory part followed by the name: nothing is lost and
/// the name holds no slash.
pub proof fn law_token_is_directory_and_name(token: Seq<char>)
    ensures
        token.take(dir_len(token) as int) + token.skip(dir_len(token) as int) == token,
        forall|i: int|
            0 <= i < token.skip(dir_len(token) as int).len() ==> #[trigger] token.skip(
                dir_len(token) as int,
            )[i] != '/',
{
    lemma_dir_len(token);
    assert(token.take(dir_len(token) as int) + token.skip(dir_len(token) as int) =~= token);
}

/// A path is taken relative to another by a separator between them, just one
/// where there is one already; an absolute path stands alone.
pub proof fn law_paths_are_joined_by_one_separator(base: Seq<char>, rest: Seq<char>)
    ensures
        rest.len() > 0 && rest[0] == '/' ==> joined(base, rest) == rest,
        !(rest.len() > 0 && rest[0] == '/') && base.len() > 0 && base.last() != '/' ==> joined(
            base,
            rest,
        ) == base + seq!['/'] + rest,
        !(rest.len() > 0 && rest[0] == '/') && (base.len() == 0 || base.last() == '/') ==> joined(
            base,
            rest,
        ) == base + rest,
{
    reveal_strlit("/");
    assert("/"@ =~= seq!['/']);
}

/// The directory of a token is found from the home directory behind a tilde,
/// from the root where it is absolute, from the working directory behind one
/// dot or two, and from the workspace else.
pub proof fn law_tokens_look_in_their_directory(
    dir: Seq<char>,
    workspace: Seq<char>,
    cwd: Seq<char>,
    home: Option<Seq<char>>,
)
    ensures
        ({
            let found = token_dir(dir, workspace, cwd, home);
            let n = dir.len();
            let tilde = n >= 2 && dir[0] == '~' && dir[1] == '/';
            let root = n >= 1 && dir[0] == '/';
            let dots = n >= 2 && dir[0] == '.' && dir[1] == '/' || n >= 3 && dir[0] == '.'
                && dir[1] == '.' && dir[2] == '/';
            &&& n == 0 ==> found == workspace
            &&& tilde && home is Some ==> found == joined(home->0, dir.skip(2))
            &&& tilde && home is None ==> found == joined(workspace, dir)
            &&& root ==> found == dir
            &&& dots ==> found == joined(cwd, dir)
            &&& n > 0 && !tilde && !root && !dots ==> found == joined(workspace, dir)
        }),
{
    reveal_strlit("~/");
    reveal_strlit("./");
    reveal_strlit("../");
    let n = dir.len();
    if n >= 2 {
        let two = dir.subrange(0, 2);
        assert(two[0] == dir[0] && two[1] == dir[1]);
        if dir[0] == '~' && dir[1] == '/' {
            assert(two =~= "~/"@);
        }
        if dir[0] == '.' && dir[1] == '/' {
            assert(two =~= "./"@);
        }
    }
    if n >= 3 {
        let three = dir.subrange(0, 3);
        assert(three[0] == dir[0] && three[1] == dir[1] && three[2] == dir[2]);
        if dir[0] == '.' && dir[1] == '.' && dir[2] == '/' {
            assert(three =~= "../"@);
        }
    }
}

} // verus!
