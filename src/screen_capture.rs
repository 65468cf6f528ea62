//! The screen-capture tool's own logic: which windows are listed and how.
//! Capturing and encoding are done by the caller.
use vstd::prelude::*;
use crate::text::{join_lines, push_range, string_of};

verus! {

/// A window title is listed when its window is not minimized and the
/// title is neither empty nor the placeholder `<No Title>`.
pub open spec fn listed(title: Seq<char>, minimized: bool) -> bool {
    !minimized && title.len() > 0 && title != "<No Title>"@
}

/// The titles listed among the first `k` windows, in order.
pub open spec fn listed_titles(titles: Seq<Seq<char>>, minimized: Seq<bool>, k: int) -> Seq<Seq<char>>
    decreases k,
{
    if k <= 0 {
        seq![]
    } else if listed(titles[k - 1], minimized[k - 1]) {
        listed_titles(titles, minimized, k - 1).push(titles[k - 1])
    } else {
        listed_titles(titles, minimized, k - 1)
    }
}

/// The report on the listed windows.
pub open spec fn window_list_report(ls: Seq<Seq<char>>) -> Seq<char> {
    if ls.len() == 0 {
        "No windows found"@
    } else {
        "Available windows:\n"@ + join_lines(ls)
    }
}

/// The screen-capture tool.
pub struct ScreenCapture;

impl ScreenCapture {
    pub fn new() -> (r: ScreenCapture) {
        ScreenCapture
    }

    /// The report on the windows with the given titles, `minimized[i]`
    /// telling whether window `i` is minimized.
    pub fn window_list(titles: &Vec<String>, minimized: &Vec<bool>) -> (r: String)
        requires
            titles.len() == minimized.len(),
        ensures
            r@ == window_list_report(
                listed_titles(titles@.map_values(|t: String| t@), minimized@, titles.len() as int),
            ),
    {
        let ghost ts = titles@.map_values(|t: String| t@);
        let mut joined: Vec<char> = Vec::new();
        let mut count: usize = 0;
        let mut i: usize = 0;
        while i < titles.len()
            invariant
                i <= titles.len() == minimized.len(),
                ts == titles@.map_values(|t: String| t@),
                count == listed_titles(ts, minimized@, i as int).len(),
                joined@ == join_lines(listed_titles(ts, minimized@, i as int)),
                count <= i,
            decreases titles.len() - i,
        {
            let t = crate::text::chars_of(titles[i].as_str());
            let placeholder = crate::lang::chars_are(&t, "<No Title>");
            assert(ts[i as int] == t@);
            if !minimized[i] && t.len() > 0 && !placeholder {
                if count > 0 {
                    joined.push('\n');
                }
                push_range(&mut joined, &t, 0, t.len());
                assert(t@.subrange(0, t.len() as int) =~= t@);
                let ghost next = listed_titles(ts, minimized@, i + 1);
                assert(next.drop_last() == listed_titles(ts, minimized@, i as int));
                assert(joined@ =~= join_lines(next));
                count = count + 1;
            }
            i = i + 1;
        }
        if count == 0 {
            String::from_str("No windows found")
        } else {
            let mut r = String::from_str("Available windows:\n");
            r.append(string_of(joined.as_slice()).as_str());
            r
        }
    }
}

} // verus!
