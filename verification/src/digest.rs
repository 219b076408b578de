//! The digest compiler: turns the window's entries into exactly one
//! outbound payload.
//!
//! An empty window always yields the fixed fallback payload; a non-empty
//! window yields a payload whose body lists every entry, 1-based, in stored
//! order, and whose heading carries the ISO week number of the given date.

use vstd::prelude::*;

use crate::calendar::{days_in_month, Civil};
use crate::store::{models, EntryModel, FeedEntry};

verus! {

/// Accent color of every digest payload.
pub const EMBED_COLOR: u32 = 0x5865F2;

/// The decimal digit character for `d` in 0..=9.
pub open spec fn digit_char(d: int) -> char {
    if d == 0 {
        '0'
    } else if d == 1 {
        '1'
    } else if d == 2 {
        '2'
    } else if d == 3 {
        '3'
    } else if d == 4 {
        '4'
    } else if d == 5 {
        '5'
    } else if d == 6 {
        '6'
    } else if d == 7 {
        '7'
    } else if d == 8 {
        '8'
    } else {
        '9'
    }
}

/// Decimal rendering of a nonnegative integer, most significant digit first.
pub open spec fn dec_digits(n: int) -> Seq<char>
    decreases n,
{
    if n < 10 {
        seq![digit_char(n)]
    } else {
        dec_digits(n / 10).push(digit_char(n % 10))
    }
}

/// The single-character string for the digit `d`.
pub fn digit_str(d: u64) -> (r: &'static str)
    requires
        d < 10,
    ensures
        r@ == seq![digit_char(d as int)],
{
    proof {
        reveal_strlit("0");
        reveal_strlit("1");
        reveal_strlit("2");
        reveal_strlit("3");
        reveal_strlit("4");
        reveal_strlit("5");
        reveal_strlit("6");
        reveal_strlit("7");
        reveal_strlit("8");
        reveal_strlit("9");
    }
    if d == 0 {
        let r = "0";
        proof {
            assert(r@ =~= seq![digit_char(d as int)]);
        }
        r
    } else if d == 1 {
        let r = "1";
        proof {
            assert(r@ =~= seq![digit_char(d as int)]);
        }
        r
    } else if d == 2 {
        let r = "2";
        proof {
            assert(r@ =~= seq![digit_char(d as int)]);
        }
        r
    } else if d == 3 {
        let r = "3";
        proof {
            assert(r@ =~= seq![digit_char(d as int)]);
        }
        r
    } else if d == 4 {
        let r = "4";
        proof {
            assert(r@ =~= seq![digit_char(d as int)]);
        }
        r
    } else if d == 5 {
        let r = "5";
        proof {
            assert(r@ =~= seq![digit_char(d as int)]);
        }
        r
    } else if d == 6 {
        let r = "6";
        proof {
            assert(r@ =~= seq![digit_char(d as int)]);
        }
        r
    } else if d == 7 {
        let r = "7";
        proof {
            assert(r@ =~= seq![digit_char(d as int)]);
        }
        r
    } else if d == 8 {
        let r = "8";
        proof {
            assert(r@ =~= seq![digit_char(d as int)]);
        }
        r
    } else {
        let r = "9";
        proof {
            assert(r@ =~= seq![digit_char(d as int)]);
        }
        r
    }
}

/// Appends the decimal rendering of `n` to `s`.
pub fn push_decimal(s: &mut String, n: u64)
    ensures
        final(s)@ == old(s)@ + dec_digits(n as int),
    decreases n,
{
    if n < 10 {
        s.append(digit_str(n));
        proof {
            assert(final(s)@ =~= old(s)@ + dec_digits(n as int));
        }
    } else {
        push_decimal(s, n / 10);
        s.append(digit_str(n % 10));
        proof {
            assert(final(s)@ =~= old(s)@ + dec_digits(n as int));
        }
    }
}

/// One line of the digest body: 1-based position, title as a clickable
/// label for the link, and the source feed.
pub open spec fn entry_line(i: int, e: EntryModel) -> Seq<char> {
    "**"@ + dec_digits(i + 1) + ".** ["@ + e.title + "]("@ + e.link + ")\n_Feed:_ "@ + e.feed
        + "\n"@
}

/// All lines of the digest body in stored order, each ending in a newline.
pub open spec fn digest_body(s: Seq<EntryModel>) -> Seq<char>
    decreases s.len(),
{
    if s.len() == 0 {
        Seq::empty()
    } else {
        digest_body(s.drop_last()) + entry_line(s.len() - 1, s.last())
    }
}

/// The body of a non-empty window is itself non-empty.
pub proof fn lemma_digest_body_len(s: Seq<EntryModel>)
    requires
        s.len() > 0,
    ensures
        digest_body(s).len() > 0,
{
    reveal_strlit("\n");
}

/// The outbound message: a chat-webhook embed plus a sending display name.
#[derive(Debug)]
pub struct DigestPayload {
    pub title: String,
    pub description: String,
    pub color: u32,
    pub footer: String,
    pub username: String,
}

/// The mathematical model of a payload.
#[verifier::ext_equal]
pub struct PayloadModel {
    pub title: Seq<char>,
    pub description: Seq<char>,
    pub color: int,
    pub footer: Seq<char>,
    pub username: Seq<char>,
}

impl View for DigestPayload {
    type V = PayloadModel;

    open spec fn view(&self) -> PayloadModel {
        PayloadModel {
            title: self.title@,
            description: self.description@,
            color: self.color as int,
            footer: self.footer@,
            username: self.username@,
        }
    }
}

/// The fixed payload sent when the window holds no entries.
pub open spec fn fallback_payload(p: PayloadModel) -> bool {
    &&& p.title == "Nothing this week! \u{1F605}"@
    &&& p.description == "Here are the articles from the past week!"@
    &&& p.color == EMBED_COLOR
    &&& p.footer == "Disclaimer: It's possible I missed all of Matei's messages. Oops."@
    &&& p.username == "Delivery Boy"@
}

/// The payload listing the entries `s` under the heading for ISO week
/// `week`: the body is every line in order, with the final newline removed.
pub open spec fn weekly_payload(p: PayloadModel, s: Seq<EntryModel>, week: int) -> bool {
    &&& p.title == "Posts for Week "@ + dec_digits(week)
    &&& p.description == digest_body(s).drop_last()
    &&& p.color == EMBED_COLOR
    &&& p.footer == "Disclaimer: This is not sorted in any particular order of interest."@
    &&& p.username == "Delivery Boy"@
}

/// The ISO 8601 week number of a valid calendar date.
pub uninterp spec fn iso_week_number(y: int, m: int, d: int) -> int;

/// Relies on `chrono::NaiveDate::iso_week`: the ISO 8601 week number of a
/// valid date, between 1 and 53, depending on the date alone.
#[verifier::external_body]
pub(crate) fn iso_week_of(y: u64, m: u64, d: u64) -> (r: u32)
    requires
        1970 <= y <= 9999,
        1 <= m <= 12,
        1 <= d <= days_in_month(y as int, m as int),
    ensures
        r == iso_week_number(y as int, m as int, d as int),
        1 <= r <= 53,
{
    match chrono::NaiveDate::from_ymd_opt(y as i32, m as u32, d as u32) {
        Some(date) => chrono::Datelike::iso_week(&date).week(),
        None => 1,
    }
}

/// Compiles the window's entries into exactly one payload: the fallback for
/// an empty window, the numbered list under the week heading otherwise.
pub fn compile_digest(entries: &Vec<FeedEntry>, today: &Civil) -> (r: DigestPayload)
    requires
        today.wf(),
    ensures
        entries@.len() == 0 ==> fallback_payload(r@),
        entries@.len() > 0 ==> weekly_payload(
            r@,
            models(entries@),
            iso_week_number(today.year as int, today.month as int, today.day as int),
        ),
{
    if entries.len() == 0 {
        DigestPayload {
            title: String::from_str("Nothing this week! \u{1F605}"),
            description: String::from_str("Here are the articles from the past week!"),
            color: EMBED_COLOR,
            footer: String::from_str(
                "Disclaimer: It's possible I missed all of Matei's messages. Oops.",
            ),
            username: String::from_str("Delivery Boy"),
        }
    } else {
        let ghost ms = models(entries@);
        let mut body = String::new();
        let mut i: usize = 0;
        while i < entries.len()
            invariant
                i <= entries@.len(),
                ms == models(entries@),
                body@ == digest_body(ms.take(i as int)),
            decreases entries@.len() - i,
        {
            let e = &entries[i];
            proof {
                assert(ms.take(i + 1).drop_last() =~= ms.take(i as int));
                assert(ms.take(i + 1).last() == ms[i as int]);
                assert(e@ == ms[i as int]);
            }
            let ghost before = body@;
            body.append("**");
            push_decimal(&mut body, (i + 1) as u64);
            body.append(".** [");
            body.append(e.title.as_str());
            body.append("](");
            body.append(e.link.as_str());
            body.append(")\n_Feed:_ ");
            body.append(e.feed.as_str());
            body.append("\n");
            proof {
                assert(body@ =~= before + entry_line(i as int, ms[i as int]));
                assert(body@ =~= digest_body(ms.take(i + 1)));
            }
            i += 1;
        }
        proof {
            assert(ms.take(ms.len() as int) =~= ms);
            lemma_digest_body_len(ms);
        }
        let week = iso_week_of(today.year, today.month, today.day);
        let mut title = String::from_str("Posts for Week ");
        push_decimal(&mut title, week as u64);
        let n = body.as_str().unicode_len();
        let description = body.as_str().substring_char(0, n - 1).to_owned();
        proof {
            assert(description@ =~= digest_body(ms).drop_last());
        }
        DigestPayload {
            title,
            description,
            color: EMBED_COLOR,
            footer: String::from_str(
                "Disclaimer: This is not sorted in any particular order of interest.",
            ),
            username: String::from_str("Delivery Boy"),
        }
    }
}

/// The empty-window law: compilation of an empty window is deterministic —
/// any two payloads it can produce are equal, however often it runs.
pub proof fn lemma_empty_digest_deterministic(p1: PayloadModel, p2: PayloadModel)
    requires
        fallback_payload(p1),
        fallback_payload(p2),
    ensures
        p1 == p2,
{
    assert(p1 =~= p2);
}

} // verus!
