//! The plain HTML page for browsers without scripts: the listing, one link
//! per sound, and the kill switch.

use vstd::prelude::*;
use vstd::string::StringExecFns;
use crate::api::{summary_views, SoundSummary, SummaryView};

verus! {

/// The character of one decimal digit.
pub open spec fn digit_char(digit: int) -> char
    recommends
        0 <= digit < 10,
{
    if digit == 0 {
        '0'
    } else if digit == 1 {
        '1'
    } else if digit == 2 {
        '2'
    } else if digit == 3 {
        '3'
    } else if digit == 4 {
        '4'
    } else if digit == 5 {
        '5'
    } else if digit == 6 {
        '6'
    } else if digit == 7 {
        '7'
    } else if digit == 8 {
        '8'
    } else {
        '9'
    }
}

/// The decimal digits of `n`, most significant first, without leading zeros.
pub open spec fn decimal_digits(n: nat) -> Seq<char>
    decreases n,
{
    if n < 10 {
        seq![digit_char(n as int)]
    } else {
        decimal_digits(n / 10).push(digit_char((n % 10) as int))
    }
}

/// `n` in decimal, with a minus sign in front if it is negative.
pub open spec fn decimal_text(n: int) -> Seq<char> {
    if n < 0 {
        seq!['-'] + decimal_digits((-n) as nat)
    } else {
        decimal_digits(n as nat)
    }
}

/// The line of the page for one sound: a link that plays it, and how often
/// it was played. The name stands in the page as it is.
pub open spec fn entry_text(line: SummaryView) -> Seq<char> {
    "<a href=\"/compat-sounds/api-c1/play/"@ + line.name + "\">"@ + line.name
        + "</a> (played "@ + decimal_text(line.play_count) + " times)<br>"@
}

/// The lines of the page for `lines`, in their order.
pub open spec fn entries_text(lines: Seq<SummaryView>) -> Seq<char>
    decreases lines.len(),
{
    if lines.len() == 0 {
        Seq::empty()
    } else {
        entries_text(lines.drop_last()) + entry_text(lines.last())
    }
}

/// What stands on the page before the first sound.
pub open spec fn page_head(version: Seq<char>) -> Seq<char> {
    "<html><head><title>realraum Sounds</title></head><body><h1>realraum Sounds</h1>"@
        + "<p>Version "@ + version + " &nbsp; - &nbsp;"@
        + "<a href=\"/compat-sounds/api-c1/killall_mplayer\">Kill all mplayer instances</a></p>"@
}

/// The whole page.
pub open spec fn page_text(lines: Seq<SummaryView>, version: Seq<char>) -> Seq<char> {
    page_head(version) + entries_text(lines) + "</body></html>"@
}

fn digit_text(digit: u8) -> (text: &'static str)
    requires
        digit < 10,
    ensures
        text@ == seq![digit_char(digit as int)],
{
    proof {
        reveal_strlit("0");
        reveal_strlit("1");
        reveal_strlit("2");
        reveal_strlit("3");
        reveal_strlit("4");
        reveal_strlit("5");
        reveal_strlit("6");
        reveal_strlit("7");
        reveal_strlit("8");
        reveal_strlit("9");
    }
    let text = match digit {
        0 => "0",
        1 => "1",
        2 => "2",
        3 => "3",
        4 => "4",
        5 => "5",
        6 => "6",
        7 => "7",
        8 => "8",
        _ => "9",
    };
    assert(text@ =~= seq![digit_char(digit as int)]);
    text
}

fn append_digits(out: &mut String, n: u64)
    ensures
        final(out)@ == old(out)@ + decimal_digits(n as nat),
    decreases n,
{
    if n >= 10 {
        append_digits(out, n / 10);
    }
    out.append(digit_text((n % 10) as u8));
    assert(out@ =~= old(out)@ + decimal_digits(n as nat));
}

/// Writes `n` in decimal.
pub fn decimal(n: i64) -> (text: String)
    ensures
        text@ == decimal_text(n as int),
{
    let mut text = String::new();
    if n < 0 {
        proof {
            reveal_strlit("-");
        }
        text.append("-");
        assert(text@ =~= seq!['-']);
        let magnitude: u64 = if n == i64::MIN {
            0x8000_0000_0000_0000
        } else {
            (-n) as u64
        };
        append_digits(&mut text, magnitude);
    } else {
        append_digits(&mut text, n as u64);
        assert(text@ =~= decimal_text(n as int));
    }
    text
}

/// Renders the page for `lines`, which are shown in the order given, and
/// for the version of the service.
pub fn html_page(lines: &Vec<SoundSummary>, version: &str) -> (html: String)
    ensures
        html@ == page_text(summary_views(lines@), version@),
{
    let ghost all = summary_views(lines@);
    let mut html = String::from_str(
        "<html><head><title>realraum Sounds</title></head><body><h1>realraum Sounds</h1>",
    );
    html.append("<p>Version ");
    html.append(version);
    html.append(" &nbsp; - &nbsp;");
    html.append(
        "<a href=\"/compat-sounds/api-c1/killall_mplayer\">Kill all mplayer instances</a></p>",
    );
    assert(html@ =~= page_head(version@));
    let mut i: usize = 0;
    assert(all.take(0) =~= Seq::<SummaryView>::empty());
    assert(html@ =~= page_head(version@) + entries_text(all.take(0)));
    while i < lines.len()
        invariant
            i <= lines.len(),
            all == summary_views(lines@),
            html@ == page_head(version@) + entries_text(all.take(i as int)),
        decreases lines.len() - i,
    {
        let ghost before = html@;
        let line = &lines[i];
        let count = decimal(line.play_count);
        html.append("<a href=\"/compat-sounds/api-c1/play/");
        html.append(line.name.as_str());
        html.append("\">");
        html.append(line.name.as_str());
        html.append("</a> (played ");
        html.append(count.as_str());
        html.append(" times)<br>");
        proof {
            assert(all.take(i + 1).drop_last() =~= all.take(i as int));
            assert(all.take(i + 1).last() == line@);
            assert(html@ =~= before + entry_text(line@));
            assert(html@ =~= page_head(version@) + entries_text(all.take(i + 1)));
        }
        i += 1;
    }
    assert(all.take(i as int) =~= all);
    html.append("</body></html>");
    html
}

} // verus!
