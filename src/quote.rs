//! A quote record and its rendering as a reply.
use vstd::prelude::*;
use crate::text::{
    all_ascii_digits, decimal, digit_char, digits_value, is_ascii_digit, push_decimal,
};

verus! {

/// One attributed line of dialogue. A season or episode of `0` means unknown.
#[derive(Clone, Debug, PartialEq, Eq)]
pub struct Quote {
    pub quote: String,
    pub quotee: String,
    pub season: u8,
    pub episode: u8,
}

pub struct QuoteView {
    pub text: Seq<char>,
    pub speaker: Seq<char>,
    pub season: u8,
    pub episode: u8,
}

impl View for Quote {
    type V = QuoteView;

    open spec fn view(&self) -> QuoteView {
        QuoteView { text: self.quote@, speaker: self.quotee@, season: self.season, episode: self.episode }
    }
}

/// A season or episode number as shown: its numeral, or `?` for `0`.
pub open spec fn shown(n: u8) -> Seq<char> {
    if n == 0 {
        seq!['?']
    } else {
        decimal(n as nat)
    }
}

/// The reply text for a quote: the text in quotation marks, the speaker on
/// its own line, then the season and episode.
pub open spec fn formatted_text(q: QuoteView) -> Seq<char> {
    "\""@ + q.text + "\"\n\n - "@ + q.speaker + "\n Season "@ + shown(q.season) + ", Episode "@
        + shown(q.episode)
}

fn push_shown(out: &mut String, n: u8)
    ensures
        final(out)@ == old(out)@ + shown(n),
{
    if n == 0 {
        proof {
            reveal_strlit("?");
        }
        out.append("?");
    } else {
        push_decimal(out, n);
    }
}

impl Quote {
    /// The reply text for this quote.
    pub fn formatted(&self) -> (r: String)
        ensures
            r@ == formatted_text(self@),
    {
        let mut r = String::new();
        r.append("\"");
        r.append(self.quote.as_str());
        r.append("\"\n\n - ");
        r.append(self.quotee.as_str());
        r.append("\n Season ");
        push_shown(&mut r, self.season);
        r.append(", Episode ");
        push_shown(&mut r, self.episode);
        assert(r@ =~= formatted_text(self@));
        r
    }
}

proof fn lemma_digit_char(d: nat)
    requires
        d < 10,
    ensures
        '0' <= digit_char(d) <= '9',
        digit_char(d) as int - '0' as int == d,
{
    let t = seq!['0', '1', '2', '3', '4', '5', '6', '7', '8', '9'];
    assert(digit_char(d) == t[d as int]);
}

/// The numeral of `n` is made of digits and reads back as `n`.
proof fn lemma_decimal_reads_back(n: nat)
    ensures
        decimal(n).len() > 0,
        all_ascii_digits(decimal(n)),
        digits_value(decimal(n)) == n,
    decreases n,
{
    if n < 10 {
        lemma_digit_char(n);
        let d = decimal(n);
        assert(d.drop_last() =~= Seq::<char>::empty());
        assert(digits_value(d.drop_last()) == 0);
        assert(d.last() == digit_char(n));
    } else {
        lemma_decimal_reads_back(n / 10);
        lemma_digit_char(n % 10);
        let d = decimal(n);
        assert(d.drop_last() =~= decimal(n / 10));
        assert(n == (n / 10) * 10 + n % 10) by (nonlinear_arith);
        assert(d.last() == digit_char(n % 10));
        assert(digits_value(d) == digits_value(decimal(n / 10)) * 10 + (digit_char(n % 10) as int
            - '0' as int));
        assert forall|i: int| 0 <= i < d.len() implies is_ascii_digit(#[trigger] d[i]) by {
            if i < d.len() - 1 {
                assert(d[i] == decimal(n / 10)[i]);
            }
        }
    }
}

/// Distinct numbers show as distinct texts, none of which holds a comma.
proof fn lemma_shown_apart(m: u8, n: u8)
    ensures
        shown(m).len() > 0,
        forall|i: int| 0 <= i < shown(m).len() ==> #[trigger] shown(m)[i] != ',',
        m != n ==> shown(m) != shown(n),
{
    if m != 0 {
        lemma_decimal_reads_back(m as nat);
        assert forall|i: int| 0 <= i < shown(m).len() implies #[trigger] shown(m)[i] != ',' by {
            assert(is_ascii_digit(decimal(m as nat)[i]));
        }
    }
    if n != 0 {
        lemma_decimal_reads_back(n as nat);
    }
    if m != n && m != 0 && n == 0 {
        assert(is_ascii_digit(decimal(m as nat)[0]));
        assert(shown(n)[0] == '?');
    }
    if m != n && n != 0 && m == 0 {
        assert(is_ascii_digit(decimal(n as nat)[0]));
        assert(shown(m)[0] == '?');
    }
}

/// Rendering tells season and episode numbers apart: two quotes with the same
/// text and speaker but a different season or episode render differently. In
/// particular, an unknown season or episode never renders like a known one.
pub proof fn lemma_numbers_render_apart(a: QuoteView, b: QuoteView)
    requires
        a.text == b.text,
        a.speaker == b.speaker,
        a.season != b.season || a.episode != b.episode,
    ensures
        formatted_text(a) != formatted_text(b),
{
    lemma_shown_apart(a.season, b.season);
    lemma_shown_apart(b.season, a.season);
    lemma_shown_apart(a.episode, b.episode);
    let head = "\""@ + a.text + "\"\n\n - "@ + a.speaker + "\n Season "@;
    let sa = shown(a.season);
    let sb = shown(b.season);
    let fa = formatted_text(a);
    let fb = formatted_text(b);
    let tail_a = ", Episode "@ + shown(a.episode);
    let tail_b = ", Episode "@ + shown(b.episode);
    assert(fa =~= head + sa + tail_a);
    assert(fb =~= head + sb + tail_b);
    reveal_strlit(", Episode ");
    if fa == fb {
        let k = head.len() as int;
        if sa.len() == sb.len() {
            assert(sa =~= fa.subrange(k, k + sa.len()));
            assert(sb =~= fb.subrange(k, k + sb.len()));
            let mid = head + sa + ", Episode "@;
            assert(fa =~= mid + shown(a.episode));
            assert(fb =~= mid + shown(b.episode));
            assert(shown(a.episode) =~= fa.subrange(mid.len() as int, fa.len() as int));
            assert(shown(b.episode) =~= fb.subrange(mid.len() as int, fb.len() as int));
        } else if sa.len() < sb.len() {
            assert(fa[k + sa.len()] == ',');
            assert(fb[k + sa.len()] == sb[sa.len() as int]);
        } else {
            assert(fb[k + sb.len()] == ',');
            assert(fa[k + sb.len()] == sa[sb.len() as int]);
        }
    }
}

} // verus!
