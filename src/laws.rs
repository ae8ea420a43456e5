//! What holds of every shortened line.

use crate::pattern::pattern_exempts;
use crate::shorten::{in_window, Config};
use crate::split::{prepend_to_first, split_on};
use vstd::prelude::*;

verus! {

/// Whether the delimiter `d` occurs in `s` at position `p`.
pub open spec fn occurs_in_at(s: Seq<char>, d: Seq<char>, p: int) -> bool {
    0 <= p && p + d.len() <= s.len() && s.subrange(p, p + d.len()) == d
}

/// A line in which a non-empty delimiter never occurs is a single component.
pub proof fn lemma_split_without_delimiter(s: Seq<char>, d: Seq<char>)
    requires
        d.len() > 0,
        forall|p: int| !occurs_in_at(s, d, p),
    ensures
        split_on(s, d) == seq![s],
    decreases s.len(),
{
    if s.len() >= d.len() {
        assert(!occurs_in_at(s, d, 0));
        let rest = s.subrange(1, s.len() as int);
        assert forall|p: int| !occurs_in_at(rest, d, p) by {
            if occurs_in_at(rest, d, p) {
                assert(s.subrange(p + 1, p + 1 + d.len()) =~= rest.subrange(p, p + d.len()));
                assert(occurs_in_at(s, d, p + 1));
            }
        }
        lemma_split_without_delimiter(rest, d);
        assert(seq![s[0]] + rest =~= s);
        assert(prepend_to_first(seq![s[0]], seq![rest]) =~= seq![s]);
    }
}

/// Shortening keeps the number of components: it never drops or merges one.
pub proof fn lemma_component_count(cfg: Config, line: Seq<char>)
    ensures
        cfg.shortened(line).len() == cfg.parts(line).len(),
{
}

/// When either window covers the whole line, every component is kept as it
/// was split.
pub proof fn lemma_full_preservation(cfg: Config, line: Seq<char>)
    requires
        cfg.ignore_first_n >= cfg.parts(line).len() || cfg.ignore_last_n >= cfg.parts(
            line,
        ).len(),
    ensures
        cfg.shortened(line) == cfg.parts(line),
{
    assert(cfg.shortened(line) =~= cfg.parts(line));
}

/// A component that is shrunk becomes its first character, or stays empty
/// when it is empty.
pub proof fn lemma_shrunk_to_first_char(cfg: Config, line: Seq<char>, i: int)
    requires
        0 <= i < cfg.parts(line).len(),
        !in_window(
            i,
            cfg.parts(line).len() as int,
            cfg.ignore_first_n as int,
            cfg.ignore_last_n as int,
        ),
        !pattern_exempts(cfg.ignore_regex, cfg.parts(line)[i]),
    ensures
        cfg.parts(line)[i].len() == 0 ==> cfg.shortened(line)[i].len() == 0,
        cfg.parts(line)[i].len() > 0 ==> cfg.shortened(line)[i] == seq![cfg.parts(line)[i][0]],
{
}

/// A component that the exemption pattern matches is kept whole, wherever it
/// stands.
pub proof fn lemma_pattern_exempts(cfg: Config, line: Seq<char>, i: int)
    requires
        0 <= i < cfg.parts(line).len(),
        pattern_exempts(cfg.ignore_regex, cfg.parts(line)[i]),
    ensures
        cfg.shortened(line)[i] == cfg.parts(line)[i],
{
}

/// A line in which the (non-empty) delimiter never occurs comes back whole,
/// as its only component, whenever the trailing window keeps at least one
/// component.
pub proof fn lemma_line_without_delimiter(cfg: Config, line: Seq<char>)
    requires
        cfg.delimiter@.len() > 0,
        forall|p: int| !occurs_in_at(line, cfg.delimiter@, p),
        cfg.ignore_last_n >= 1,
    ensures
        cfg.shortened(line) == seq![line],
{
    lemma_split_without_delimiter(line, cfg.delimiter@);
    assert(cfg.shortened(line) =~= seq![line]);
}

} // verus!
