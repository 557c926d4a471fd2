//! Rendering a task's state as one human-readable progress line. Byte counts
//! are shown in human units and the pieces are tinted with terminal colors;
//! whether color codes are actually emitted depends on the terminal, so the
//! contracts pin the line's layout and the text embedded in each tinted
//! piece.

use vstd::prelude::*;

use crate::state::{State, StateView, Task, TaskView, total_view};

verus! {

/// `needle` occurs contiguously inside `hay`.
pub open spec fn contains_text(hay: Seq<char>, needle: Seq<char>) -> bool {
    exists|k: int|
        0 <= k && k + needle.len() <= hay.len() && #[trigger] hay.subrange(
            k,
            k + needle.len() as int,
        ) == needle
}

/// No escape character: colored reshuffles a styled text only around escape
/// sequences already inside it, so escape-free input is embedded unchanged.
pub open spec fn esc_free(s: Seq<char>) -> bool {
    forall|i: int| 0 <= i < s.len() ==> #[trigger] s[i] != '\u{1b}'
}

/// The tints the progress lines use.
enum Hue {
    Green,
    BrightGreen,
    Cyan,
    Magenta,
    Red,
}

/// Relies on colored's `Colorize::color` and `ColoredString`'s `Display`:
/// the styled text is either the input itself (coloring disabled) or the
/// input between an escape-coded style prefix and a reset suffix, so an
/// escape-free input appears in it unchanged and contiguous.
#[verifier::external_body]
fn paint(s: &str, hue: Hue) -> (r: String)
    requires
        esc_free(s@),
    ensures
        contains_text(r@, s@),
        r@.len() >= s@.len(),
{
    let c = match hue {
        Hue::Green => colored::Color::Green,
        Hue::BrightGreen => colored::Color::BrightGreen,
        Hue::Cyan => colored::Color::Cyan,
        Hue::Magenta => colored::Color::Magenta,
        Hue::Red => colored::Color::Red,
    };
    format!("{}", colored::Colorize::color(s, c))
}

/// The text humansize renders a byte count as, in decimal units: a function
/// of the numeric value alone.
pub uninterp spec fn human_size_of(n: nat) -> Seq<char>;

/// Relies on humansize's `format_size` with the `DECIMAL` options: the text
/// depends on the numeric value alone, and is built of digits, letters, a
/// dot and spaces — never an escape character.
#[verifier::external_body]
fn human_size(n: u64) -> (r: String)
    ensures
        r@ == human_size_of(n as nat),
        esc_free(r@),
{
    humansize::format_size(n, humansize::DECIMAL)
}

/// The text shown for the total: the rendered size hint, or an explicit
/// `unknown` marker when the byte source reported none.
pub open spec fn total_text(total: Option<nat>) -> Seq<char> {
    match total {
        Some(n) => human_size_of(n),
        None => "unknown"@,
    }
}

/// What the one-line description of a state looks like. Tinted pieces are
/// existentially quantified — the terminal decides whether they carry color
/// codes — but each embeds its plain text, and the line's layout is exact.
pub open spec fn state_desc(sv: StateView, out: Seq<char>) -> bool {
    match sv {
        StateView::FetchingURL => contains_text(out, "Fetching URL"@),
        StateView::Failed => contains_text(out, "Failed"@),
        StateView::Download { current, total } => exists|a: Seq<char>, b: Seq<char>|
            #![trigger "Downloading "@ + a + " of "@ + b]
            out == "Downloading "@ + a + " of "@ + b && contains_text(a, human_size_of(current))
                && contains_text(b, total_text(total)),
        StateView::Done { target_file, .. } => exists|w: Seq<char>|
            #![trigger contains_text(w, "Wrote"@)]
            out == w + " "@ + target_file && contains_text(w, "Wrote"@),
    }
}

/// Renders one task state as the human-readable description the progress
/// block shows.
pub fn fmt_state(state: &State) -> (r: String)
    ensures
        state_desc(state@, r@),
{
    match state {
        State::Download { current, total } => {
            let cur_h = human_size(*current as u64);
            let tot_h = match total {
                Some(t) => human_size(*t),
                None => {
                    let u = String::from_str("unknown");
                    proof {
                        reveal_strlit("unknown");
                        assert(esc_free(u@));
                    }
                    u
                },
            };
            let a = paint(cur_h.as_str(), Hue::Cyan);
            let b = paint(tot_h.as_str(), Hue::Magenta);
            let mut out = String::from_str("Downloading ");
            out.append(a.as_str());
            out.append(" of ");
            out.append(b.as_str());
            proof {
                let av = a@;
                let bv = b@;
                assert(out@ == "Downloading "@ + av + " of "@ + bv && contains_text(
                    av,
                    human_size_of(*current as nat),
                ) && contains_text(bv, total_text(total_view(*total))));
                assert(state_desc(state@, out@));
            }
            out
        },
        State::Failed => {
            proof {
                reveal_strlit("Failed");
                assert(esc_free("Failed"@));
            }
            let r = paint("Failed", Hue::Red);
            proof {
                assert(state_desc(state@, r@));
            }
            r
        },
        State::FetchingURL => {
            proof {
                reveal_strlit("Fetching URL");
                assert(esc_free("Fetching URL"@));
            }
            let r = paint("Fetching URL", Hue::BrightGreen);
            proof {
                assert(state_desc(state@, r@));
            }
            r
        },
        State::Done { target_file, .. } => {
            proof {
                reveal_strlit("Wrote");
                assert(esc_free("Wrote"@));
            }
            let mut out = paint("Wrote", Hue::Green);
            let ghost w0 = out@;
            out.append(" ");
            out.append(target_file.as_str());
            proof {
                assert(out@ == w0 + " "@ + target_file@);
                assert(contains_text(w0, "Wrote"@));
                assert(state_desc(state@, out@));
            }
            out
        },
    }
}

/// What one rendered progress line looks like: a space, the task's name, a
/// separator, then a description of its state.
pub open spec fn rendered_line(t: TaskView, out: Seq<char>) -> bool {
    exists|d: Seq<char>|
        #![trigger state_desc(t.state, d)]
        out == " "@ + t.name + ": "@ + d && state_desc(t.state, d)
}

/// Renders the progress line for one task.
pub fn render_line(task: &Task) -> (r: String)
    ensures
        rendered_line(task@, r@),
{
    let mut out = String::from_str(" ");
    out.append(task.name.as_str());
    out.append(": ");
    let d = fmt_state(&task.state);
    out.append(d.as_str());
    proof {
        assert(out@ == " "@ + task.name@ + ": "@ + d@);
        assert(state_desc(task.state@, d@));
    }
    out
}

} // verus!
