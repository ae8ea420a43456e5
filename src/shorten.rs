//! Shortening one line: components outside the kept windows, and not spared
//! by the exemption pattern, shrink to their first character.

use crate::pattern::{is_exempt, pattern_exempts};
use crate::split::{split_line, split_on, views};
use regex::Regex;
use vstd::prelude::*;

verus! {

/// How lines are shortened.
#[derive(Debug)]
pub struct Config<'a> {
    /// Delimiter to split the line on
    pub delimiter: &'a str,
    /// Number of components kept whole at the start
    pub ignore_first_n: usize,
    /// Number of components kept whole at the end
    pub ignore_last_n: usize,
    /// Components this regex matches are kept whole
    pub ignore_regex: Option<Regex>,
}

impl<'a> Default for Config<'a> {
    /// Delimiter `/`, nothing kept at the start, the last component kept, no
    /// pattern.
    fn default() -> (r: Self)
        ensures
            r.delimiter@ == seq!['/'],
            r.ignore_first_n == 0,
            r.ignore_last_n == 1,
            r.ignore_regex is None,
    {
        let r = Config { delimiter: "/", ignore_first_n: 0, ignore_last_n: 1, ignore_regex: None };
        proof {
            reveal_strlit("/");
        }
        r
    }
}

/// Whether component `i` of a line of `n` components lies in the leading
/// window of `first_n` components or the trailing one. The trailing window is
/// measured against the number of delimiters, `n - 1`: when `last_n` exceeds
/// it, every component is kept.
pub open spec fn in_window(i: int, n: int, first_n: int, last_n: int) -> bool {
    let delimiters = n - 1;
    i < first_n || last_n > delimiters || i > delimiters - last_n
}

/// The first character of `c`, or nothing when `c` is empty.
pub open spec fn shrunk(c: Seq<char>) -> Seq<char> {
    if c.len() == 0 {
        c
    } else {
        seq![c[0]]
    }
}

/// `parts` with every component outside both windows shrunk, except those
/// that `exempt` marks.
pub open spec fn shorten_marked(
    parts: Seq<Seq<char>>,
    first_n: int,
    last_n: int,
    exempt: Seq<bool>,
) -> Seq<Seq<char>> {
    Seq::new(
        parts.len(),
        |i: int|
            if in_window(i, parts.len() as int, first_n, last_n) || exempt[i] {
                parts[i]
            } else {
                shrunk(parts[i])
            },
    )
}

/// Which of `parts` the optional pattern spares.
pub open spec fn exemptions(pattern: Option<Regex>, parts: Seq<Seq<char>>) -> Seq<bool> {
    parts.map_values(|c: Seq<char>| pattern_exempts(pattern, c))
}

impl<'a> Config<'a> {
    /// The components of `line` under this configuration.
    pub open spec fn parts(&self, line: Seq<char>) -> Seq<Seq<char>> {
        split_on(line, self.delimiter@)
    }

    /// The shortened components of `line` under this configuration.
    pub open spec fn shortened(&self, line: Seq<char>) -> Seq<Seq<char>> {
        let parts = self.parts(line);
        shorten_marked(
            parts,
            self.ignore_first_n as int,
            self.ignore_last_n as int,
            exemptions(self.ignore_regex, parts),
        )
    }
}

/// The first character of `c`, or an empty string when `c` is empty.
pub fn shrink(c: &str) -> (r: String)
    ensures
        r@ == shrunk(c@),
{
    if c.unicode_len() == 0 {
        String::new()
    } else {
        let r = String::from_str(c.substring_char(0, 1));
        assert(c@.subrange(0, 1) =~= seq![c@[0]]);
        r
    }
}

/// Whether component `i` of a line of `n` components lies in the leading
/// window of `first_n` components or the trailing one of `last_n`.
pub fn is_in_window(i: usize, n: usize, first_n: usize, last_n: usize) -> (r: bool)
    requires
        i < n,
    ensures
        r == in_window(i as int, n as int, first_n as int, last_n as int),
{
    let delimiters = n - 1;
    i < first_n || last_n > delimiters || i > delimiters - last_n
}

/// Shortens already split components: each one outside both windows shrinks
/// to its first character unless `exempt` marks it.
pub fn shorten_components(
    parts: &Vec<String>,
    ignore_first_n: usize,
    ignore_last_n: usize,
    exempt: &Vec<bool>,
) -> (r: Vec<String>)
    requires
        exempt.len() == parts.len(),
    ensures
        views(r@) == shorten_marked(
            views(parts@),
            ignore_first_n as int,
            ignore_last_n as int,
            exempt@,
        ),
{
    let n = parts.len();
    let mut r: Vec<String> = Vec::new();
    for i in 0..n
        invariant
            n == parts.len(),
            exempt.len() == n,
            views(r@) =~= shorten_marked(
                views(parts@),
                ignore_first_n as int,
                ignore_last_n as int,
                exempt@,
            ).subrange(0, i as int),
    {
        let c = if is_in_window(i, n, ignore_first_n, ignore_last_n) || exempt[i] {
            parts[i].clone()
        } else {
            shrink(parts[i].as_str())
        };
        let ghost before = r@;
        r.push(c);
        assert(views(r@) =~= views(before).push(c@));
    }
    r
}

/// Splits `line` on the configured delimiter and shortens its components:
/// each one outside both windows shrinks to its first character unless the
/// exemption pattern matches it.
pub fn shorten_line(cfg: &Config, line: &str) -> (r: Vec<String>)
    ensures
        views(r@) == cfg.shortened(line@),
{
    let parts = split_line(line, cfg.delimiter);
    let n = parts.len();
    let ghost all = exemptions(cfg.ignore_regex, views(parts@));
    let mut exempt: Vec<bool> = Vec::new();
    // The pattern is only consulted where the windows do not already keep the
    // component.
    for i in 0..n
        invariant
            n == parts.len(),
            all == exemptions(cfg.ignore_regex, views(parts@)),
            exempt.len() == i,
            forall|j: int|
                0 <= j < i ==> #[trigger] exempt@[j] == (!in_window(
                    j,
                    n as int,
                    cfg.ignore_first_n as int,
                    cfg.ignore_last_n as int,
                ) && all[j]),
    {
        let e = !is_in_window(i, n, cfg.ignore_first_n, cfg.ignore_last_n) && is_exempt(
            &cfg.ignore_regex,
            parts[i].as_str(),
        );
        assert(all[i as int] == pattern_exempts(cfg.ignore_regex, parts@[i as int]@));
        exempt.push(e);
    }
    let r = shorten_components(&parts, cfg.ignore_first_n, cfg.ignore_last_n, &exempt);
    assert(shorten_marked(
        views(parts@),
        cfg.ignore_first_n as int,
        cfg.ignore_last_n as int,
        exempt@,
    ) =~= cfg.shortened(line@));
    r
}

} // verus!
