//! Shortening many lines and joining their components for output.

use crate::shorten::{shorten_line, Config};
use crate::split::views;
use vstd::prelude::*;

verus! {

/// The components of `parts` with `sep` between each two.
pub open spec fn joined(parts: Seq<Seq<char>>, sep: Seq<char>) -> Seq<char>
    decreases parts.len(),
{
    if parts.len() == 0 {
        Seq::empty()
    } else if parts.len() == 1 {
        parts[0]
    } else {
        joined(parts.drop_last(), sep) + sep + parts.last()
    }
}

/// Joins `parts` with `sep` between each two.
pub fn join(parts: &Vec<String>, sep: &str) -> (r: String)
    ensures
        r@ == joined(views(parts@), sep@),
{
    let mut r = String::new();
    for i in 0..parts.len()
        invariant
            r@ == joined(views(parts@).subrange(0, i as int), sep@),
    {
        proof {
            let upto = views(parts@).subrange(0, i + 1);
            assert(upto.drop_last() =~= views(parts@).subrange(0, i as int));
        }
        if i > 0 {
            r.append(sep);
        }
        r.append(parts[i].as_str());
    }
    assert(views(parts@).subrange(0, parts.len() as int) =~= views(parts@));
    r
}

/// Shortens each line and joins its components with `output_delimiter`.
pub fn get_shortened_lines(cfg: &Config, lines: &[String], output_delimiter: &str) -> (r: Vec<
    String,
>)
    ensures
        r.len() == lines.len(),
        forall|k: int|
            0 <= k < lines.len() ==> #[trigger] r[k]@ == joined(
                cfg.shortened(lines[k]@),
                output_delimiter@,
            ),
{
    let mut r: Vec<String> = Vec::new();
    for k in 0..lines.len()
        invariant
            r.len() == k,
            forall|j: int|
                0 <= j < k ==> #[trigger] r[j]@ == joined(
                    cfg.shortened(lines[j]@),
                    output_delimiter@,
                ),
    {
        let parts = shorten_line(cfg, lines[k].as_str());
        r.push(join(&parts, output_delimiter));
    }
    r
}

} // verus!
