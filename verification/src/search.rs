//! Searching a text for the lines that contain a query, with or without
//! regard to case, and the configuration a search runs under.

use vstd::prelude::*;

use crate::text::{contains_sub, contains_substr, lines_vec, lower_of, lowercase, split_lines};

verus! {

/// The lines of `contents` that contain `query`.
pub open spec fn matching_lines(contents: Seq<char>, query: Seq<char>) -> Seq<Seq<char>> {
    split_lines(contents).filter(|l: Seq<char>| contains_sub(l, query))
}

/// The lines of `contents` whose lowercase form contains the lowercase
/// form of `query`.
pub open spec fn matching_lines_ci(contents: Seq<char>, query: Seq<char>) -> Seq<Seq<char>> {
    split_lines(contents).filter(|l: Seq<char>| contains_sub(lower_of(l), lower_of(query)))
}

/// What a search runs under: the query, the name of the file searched, and
/// whether case matters.
#[derive(Debug, PartialEq, Eq)]
pub struct Config {
    pub query: String,
    pub filename: String,
    pub case_sensitive: bool,
}

impl Config {
    /// Reads the query and the filename from the arguments, the leading
    /// program name skipped; case sensitivity is on unless the caller's
    /// environment asked for it to be off.
    pub fn new(args: &Vec<String>, case_insensitive_env: bool) -> (r: Result<
        Config,
        &'static str,
    >)
        ensures
            args@.len() < 2 ==> r is Err && r->Err_0@ == "couldn't extract query"@,
            args@.len() == 2 ==> r is Err && r->Err_0@ == "couldn't extract filename"@,
            args@.len() >= 3 ==> r is Ok && ({
                let c = r->Ok_0;
                &&& c.query@ == args@[1]@
                &&& c.filename@ == args@[2]@
                &&& c.case_sensitive == !case_insensitive_env
            }),
    {
        if args.len() < 2 {
            return Err("couldn't extract query");
        }
        if args.len() < 3 {
            return Err("couldn't extract filename");
        }
        let query = args[1].clone();
        let filename = args[2].clone();
        Ok(Config { query, filename, case_sensitive: !case_insensitive_env })
    }

    /// Reads the query and the filename as [`Config::new`] does, but flips
    /// a coin for case sensitivity.
    pub fn new_random(args: &Vec<String>) -> (r: Result<Config, &'static str>)
        ensures
            args@.len() < 2 ==> r is Err && r->Err_0@ == "couldn't extract query"@,
            args@.len() == 2 ==> r is Err && r->Err_0@ == "couldn't extract filename"@,
            args@.len() >= 3 ==> r is Ok && ({
                let c = r->Ok_0;
                &&& c.query@ == args@[1]@
                &&& c.filename@ == args@[2]@
            }),
    {
        if args.len() < 2 {
            return Err("couldn't extract query");
        }
        if args.len() < 3 {
            return Err("couldn't extract filename");
        }
        let query = args[1].clone();
        let filename = args[2].clone();
        Ok(Config { query, filename, case_sensitive: random_bool() })
    }
}

/// Relies on `rand::random::<bool>`: a coin flip; nothing is promised of
/// the outcome.
#[verifier::external_body]
fn random_bool() -> bool {
    rand::random::<bool>()
}

/// The lines in `contents` that contain `query`.
pub fn search<'a>(query: &str, contents: &'a str) -> (r: Vec<&'a str>)
    ensures
        r@.map_values(|l: &str| l@) == matching_lines(contents@, query@),
{
    let lines = lines_vec(contents);
    let ghost lv = lines@.map_values(|l: &str| l@);
    let mut r: Vec<&'a str> = Vec::new();
    proof {
        reveal(Seq::filter);
        assert(lv.take(0) =~= Seq::<Seq<char>>::empty());
        assert(r@.map_values(|l: &str| l@) =~= lv.take(0).filter(
            |l: Seq<char>| contains_sub(l, query@),
        ));
    }
    let mut i: usize = 0;
    while i < lines.len()
        invariant
            lv == lines@.map_values(|l: &str| l@),
            lv == split_lines(contents@),
            i <= lines@.len(),
            r@.map_values(|l: &str| l@) == lv.take(i as int).filter(
                |l: Seq<char>| contains_sub(l, query@),
            ),
        decreases lines@.len() - i,
    {
        let ghost prev_r = r@;
        let line = lines[i];
        if contains_substr(line, query) {
            r.push(line);
            proof {
                assert(r@.map_values(|l: &str| l@) =~= prev_r.map_values(|l: &str| l@).push(
                    line@,
                ));
            }
        }
        proof {
            reveal(Seq::filter);
            assert(lv.take(i + 1).drop_last() =~= lv.take(i as int));
            assert(lv.take(i + 1).last() == line@);
        }
        i += 1;
    }
    proof {
        assert(lv.take(lines@.len() as int) =~= lv);
    }
    r
}

/// The lines in `contents` that contain `query` when case is set aside.
pub fn search_case_insensitive<'a>(query: &str, contents: &'a str) -> (r: Vec<&'a str>)
    ensures
        r@.map_values(|l: &str| l@) == matching_lines_ci(contents@, query@),
{
    let lowered_query = lowercase(query);
    let lines = lines_vec(contents);
    let ghost lv = lines@.map_values(|l: &str| l@);
    let mut r: Vec<&'a str> = Vec::new();
    proof {
        reveal(Seq::filter);
        assert(lv.take(0) =~= Seq::<Seq<char>>::empty());
        assert(r@.map_values(|l: &str| l@) =~= lv.take(0).filter(
            |l: Seq<char>| contains_sub(lower_of(l), lower_of(query@)),
        ));
    }
    let mut i: usize = 0;
    while i < lines.len()
        invariant
            lowered_query@ == lower_of(query@),
            lv == lines@.map_values(|l: &str| l@),
            lv == split_lines(contents@),
            i <= lines@.len(),
            r@.map_values(|l: &str| l@) == lv.take(i as int).filter(
                |l: Seq<char>| contains_sub(lower_of(l), lower_of(query@)),
            ),
        decreases lines@.len() - i,
    {
        let ghost prev_r = r@;
        let line = lines[i];
        let lowered_line = lowercase(line);
        if contains_substr(lowered_line.as_str(), lowered_query.as_str()) {
            r.push(line);
            proof {
                assert(r@.map_values(|l: &str| l@) =~= prev_r.map_values(|l: &str| l@).push(
                    line@,
                ));
            }
        }
        proof {
            reveal(Seq::filter);
            assert(lv.take(i + 1).drop_last() =~= lv.take(i as int));
            assert(lv.take(i + 1).last() == line@);
        }
        i += 1;
    }
    proof {
        assert(lv.take(lines@.len() as int) =~= lv);
    }
    r
}

/// The search a configuration asks for: by the letter of the query, or
/// with case set aside.
pub fn search_with_config<'a>(config: &Config, contents: &'a str) -> (r: Vec<&'a str>)
    ensures
        config.case_sensitive ==> r@.map_values(|l: &str| l@) == matching_lines(
            contents@,
            config.query@,
        ),
        !config.case_sensitive ==> r@.map_values(|l: &str| l@) == matching_lines_ci(
            contents@,
            config.query@,
        ),
{
    if config.case_sensitive {
        search(config.query.as_str(), contents)
    } else {
        search_case_insensitive(config.query.as_str(), contents)
    }
}

} // verus!
