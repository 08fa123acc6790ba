//! The deterministic line-oriented per-file report: a header naming the
//! algorithm and the base path, one line per file in the fed order, and a
//! trailer with the aggregate digest.

use vstd::prelude::*;

use crate::session::ReportEntry;

verus! {

/// One report line: `- <path> = <hex digest>\n`.
pub open spec fn spec_report_line(path: Seq<char>, digest: Seq<char>) -> Seq<char> {
    "- "@ + path + " = "@ + digest + "\n"@
}

/// All report lines, in order.
pub open spec fn spec_report_lines(entries: Seq<(Seq<char>, Seq<char>)>) -> Seq<char>
    decreases entries.len(),
{
    if entries.len() == 0 {
        Seq::empty()
    } else {
        spec_report_lines(entries.drop_last()) + spec_report_line(
            entries.last().0,
            entries.last().1,
        )
    }
}

/// The whole report text.
pub open spec fn spec_report(
    algorithm_name: Seq<char>,
    base: Seq<char>,
    entries: Seq<(Seq<char>, Seq<char>)>,
    aggregate: Seq<char>,
) -> Seq<char> {
    "hash algorithm: "@ + algorithm_name + "\n"@ + "base: "@ + base + "\n"@ + "----------\n"@
        + spec_report_lines(entries) + "----------\ncomplete hash = "@ + aggregate + "\n"@
}

/// Render the per-file report for the given algorithm name, base path,
/// per-file entries and aggregate digest.
pub fn render_report(
    algorithm_name: &str,
    base: &str,
    entries: &Vec<ReportEntry>,
    aggregate: &str,
) -> (r: String)
    ensures
        r@ == spec_report(
            algorithm_name@,
            base@,
            entries@.map_values(|e: ReportEntry| (e.path@, e.digest@)),
            aggregate@,
        ),
{
    let ghost model = entries@.map_values(|e: ReportEntry| (e.path@, e.digest@));
    let mut out = String::new();
    out.append("hash algorithm: ");
    out.append(algorithm_name);
    out.append("\n");
    out.append("base: ");
    out.append(base);
    out.append("\n");
    out.append("----------\n");
    let ghost header = out@;
    let mut i: usize = 0;
    proof {
        assert(model.take(0) =~= Seq::<(Seq<char>, Seq<char>)>::empty());
        assert(out@ =~= header + spec_report_lines(model.take(0)));
    }
    while i < entries.len()
        invariant
            i <= entries@.len(),
            model == entries@.map_values(|e: ReportEntry| (e.path@, e.digest@)),
            out@ == header + spec_report_lines(model.take(i as int)),
        decreases entries@.len() - i,
    {
        out.append("- ");
        out.append(entries[i].path.as_str());
        out.append(" = ");
        out.append(entries[i].digest.as_str());
        out.append("\n");
        proof {
            let pre = model.take(i as int);
            let post = model.take(i + 1 as int);
            assert(post.drop_last() =~= pre);
            assert(post.last() == model[i as int]);
            assert(out@ =~= header + spec_report_lines(post));
        }
        i += 1;
    }
    out.append("----------\ncomplete hash = ");
    out.append(aggregate);
    out.append("\n");
    proof {
        assert(model.take(model.len() as int) =~= model);
        assert(out@ =~= spec_report(algorithm_name@, base@, model, aggregate@));
    }
    out
}

} // verus!
