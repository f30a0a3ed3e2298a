//! The canonical JSON shape of the result.
//!
//! The result record is written as a single JSON object whose fields appear
//! in the canonical order `min`, `max`, `mean`, `median`, `q1`, `q3`,
//! `std_dev`, `coef_var`. The eight numbers arrive here already formatted as
//! JSON number text; this module only guarantees the exact shape and order
//! of the document around them.

use vstd::prelude::*;
use vstd::string::StringExecFns;

verus! {

/// The one-line JSON document that carries the eight formatted numbers, in
/// the canonical field order.
pub open spec fn result_json(
    min: Seq<char>,
    max: Seq<char>,
    mean: Seq<char>,
    median: Seq<char>,
    q1: Seq<char>,
    q3: Seq<char>,
    std_dev: Seq<char>,
    coef_var: Seq<char>,
) -> Seq<char> {
    "{\"min\":"@ + min + ",\"max\":"@ + max + ",\"mean\":"@ + mean + ",\"median\":"@ + median
        + ",\"q1\":"@ + q1 + ",\"q3\":"@ + q3 + ",\"std_dev\":"@ + std_dev + ",\"coef_var\":"@
        + coef_var + "}"@
}

/// Assembles the canonical JSON document from the eight formatted numbers.
pub fn render_result_json(
    min: &str,
    max: &str,
    mean: &str,
    median: &str,
    q1: &str,
    q3: &str,
    std_dev: &str,
    coef_var: &str,
) -> (out: String)
    ensures
        out@ == result_json(min@, max@, mean@, median@, q1@, q3@, std_dev@, coef_var@),
{
    let mut out = String::new();
    out.append("{\"min\":");
    out.append(min);
    out.append(",\"max\":");
    out.append(max);
    out.append(",\"mean\":");
    out.append(mean);
    out.append(",\"median\":");
    out.append(median);
    out.append(",\"q1\":");
    out.append(q1);
    out.append(",\"q3\":");
    out.append(q3);
    out.append(",\"std_dev\":");
    out.append(std_dev);
    out.append(",\"coef_var\":");
    out.append(coef_var);
    out.append("}");
    proof {
        assert(out@ =~= result_json(
            min@,
            max@,
            mean@,
            median@,
            q1@,
            q3@,
            std_dev@,
            coef_var@,
        ));
    }
    out
}

} // verus!
