//! The quote store: parsing the pipe-separated source lines, and random
//! selection over the parsed quotes.
use vstd::prelude::*;
use crate::pattern::{group_text, regex_compiles, regex_group, Pattern};
use crate::quote::{formatted_text, Quote, QuoteView};
use crate::random::random_below;
use crate::text::{
    chars_of, find_bar, next_bar, parse_u8, trim_span, trimmed, u8_of, unquote_span, unquoted,
};

verus! {

/// The season/episode tag: `s` or `S`, digits, `e` or `E`, digits.
pub const TAG_PATTERN: &'static str = r"[sS](\d+)[eE](\d+)";

/// A run of digits, the season asked for in a command.
pub const DIGITS_PATTERN: &'static str = r"(\d+)";

/// The reply when no quote belongs to the season asked for.
pub const SEASON_MISS_REPLY: &'static str = "No quotes found for that season. Life sucks, I know.";

/// Why loading the quote source failed. `line` is 1-based.
#[derive(Clone, Copy, Debug, PartialEq, Eq, Structural)]
pub enum LoadError {
    /// The source could not be opened or read.
    SourceUnavailable,
    /// A line lacks one of its three fields, or its text or speaker is empty.
    MissingField { line: usize },
    /// A line's third field holds no season/episode tag.
    MalformedTag { line: usize },
    /// A tag's season or episode does not fit in `u8`.
    NumericRange { line: usize },
    /// The regex engine refused one of the library's patterns.
    PatternUnavailable,
}

/// Why a quote could not be picked.
#[derive(Clone, Copy, Debug, PartialEq, Eq, Structural)]
pub enum PickError {
    EmptyStore,
}

pub open spec fn opt_chars(o: Option<String>) -> Option<Seq<char>> {
    match o {
        Some(s) => Some(s@),
        None => None,
    }
}

pub open spec fn quote_result(r: Result<Quote, LoadError>) -> Result<QuoteView, LoadError> {
    match r {
        Ok(q) => Ok(q@),
        Err(e) => Err(e),
    }
}

/// An empty line; such lines carry no quote.
pub open spec fn is_blank(line: Seq<char>) -> bool {
    line.len() == 0
}

/// Whether `line` has at least two `|`, hence three fields.
pub open spec fn has_three_fields(line: Seq<char>) -> bool {
    let e0 = next_bar(line, 0);
    e0 < line.len() && next_bar(line, e0 + 1) < line.len()
}

/// The first field, trimmed, without surrounding quotation marks.
pub open spec fn text_field(line: Seq<char>) -> Seq<char> {
    unquoted(trimmed(line.subrange(0, next_bar(line, 0))))
}

/// The second field, trimmed.
pub open spec fn speaker_field(line: Seq<char>) -> Seq<char> {
    let e0 = next_bar(line, 0);
    trimmed(line.subrange(e0 + 1, next_bar(line, e0 + 1)))
}

/// The third field, trimmed.
pub open spec fn tag_field(line: Seq<char>) -> Seq<char> {
    let e0 = next_bar(line, 0);
    let e1 = next_bar(line, e0 + 1);
    trimmed(line.subrange(e1 + 1, next_bar(line, e1 + 1)))
}

/// The quote that the fields of line `line` give, once the tag's two digit
/// groups are known.
pub open spec fn quote_from_groups(
    text: Seq<char>,
    speaker: Seq<char>,
    season: Option<Seq<char>>,
    episode: Option<Seq<char>>,
    line: usize,
) -> Result<QuoteView, LoadError> {
    if text.len() == 0 || speaker.len() == 0 {
        Err(LoadError::MissingField { line })
    } else if season is None || episode is None {
        Err(LoadError::MalformedTag { line })
    } else if u8_of(season->0) is None || u8_of(episode->0) is None {
        Err(LoadError::NumericRange { line })
    } else {
        Ok(
            QuoteView {
                text,
                speaker,
                season: u8_of(season->0)->0,
                episode: u8_of(episode->0)->0,
            },
        )
    }
}

/// What the non-empty line number `n` of the source gives.
pub open spec fn line_result(line: Seq<char>, n: usize) -> Result<QuoteView, LoadError> {
    if !has_three_fields(line) {
        Err(LoadError::MissingField { line: n })
    } else {
        let tag = tag_field(line);
        quote_from_groups(
            text_field(line),
            speaker_field(line),
            regex_group(TAG_PATTERN@, tag, 1),
            regex_group(TAG_PATTERN@, tag, 2),
            n,
        )
    }
}

/// What the first `n` lines give: their quotes in order, skipping empty
/// lines, or the error of the first line that fails.
pub open spec fn load_result(lines: Seq<Seq<char>>, n: nat) -> Result<Seq<QuoteView>, LoadError>
    decreases n,
{
    if n == 0 || n > lines.len() {
        Ok(seq![])
    } else {
        match load_result(lines, (n - 1) as nat) {
            Err(e) => Err(e),
            Ok(qs) => if is_blank(lines[n - 1]) {
                Ok(qs)
            } else {
                match line_result(lines[n - 1], n as usize) {
                    Ok(q) => Ok(qs.push(q)),
                    Err(e) => Err(e),
                }
            },
        }
    }
}

pub open spec fn lines_view(lines: Seq<String>) -> Seq<Seq<char>> {
    lines.map_values(|l: String| l@)
}

/// The quotes of `qs` from season `s`, in order.
pub open spec fn season_quotes(qs: Seq<QuoteView>, s: u8) -> Seq<QuoteView>
    decreases qs.len(),
{
    if qs.len() == 0 {
        seq![]
    } else if qs.last().season == s {
        season_quotes(qs.drop_last(), s).push(qs.last())
    } else {
        season_quotes(qs.drop_last(), s)
    }
}

/// Builds the quote of a line from its fields and the two digit groups of its
/// tag (`None` where the tag did not match).
pub fn quote_from_parts(
    text: String,
    speaker: String,
    season: Option<String>,
    episode: Option<String>,
    line: usize,
) -> (r: Result<Quote, LoadError>)
    ensures
        quote_result(r) == quote_from_groups(text@, speaker@, opt_chars(season), opt_chars(episode), line),
{
    if text.as_str().unicode_len() == 0 || speaker.as_str().unicode_len() == 0 {
        return Err(LoadError::MissingField { line });
    }
    let (season, episode) = match (season, episode) {
        (Some(s), Some(e)) => (s, e),
        _ => {
            return Err(LoadError::MalformedTag { line });
        },
    };
    match (parse_u8(season.as_str()), parse_u8(episode.as_str())) {
        (Some(s), Some(e)) => Ok(Quote { quote: text, quotee: speaker, season: s, episode: e }),
        _ => Err(LoadError::NumericRange { line }),
    }
}

/// Parses one non-empty source line, numbered `line`, with `tag` compiled from
/// `TAG_PATTERN`.
pub fn parse_line(text: &str, line: usize, tag: &Pattern) -> (r: Result<Quote, LoadError>)
    requires
        tag.source() == TAG_PATTERN@,
    ensures
        quote_result(r) == line_result(text@, line),
{
    let cs = chars_of(text);
    let n = cs.len();
    let e0 = find_bar(&cs, 0);
    if e0 == n {
        return Err(LoadError::MissingField { line });
    }
    let e1 = find_bar(&cs, e0 + 1);
    if e1 == n {
        return Err(LoadError::MissingField { line });
    }
    let e2 = find_bar(&cs, e1 + 1);
    let (a, b) = trim_span(&cs, 0, e0);
    let (a, b) = unquote_span(&cs, a, b);
    let body = String::from_str(text.substring_char(a, b));
    let (c, d) = trim_span(&cs, e0 + 1, e1);
    let speaker = String::from_str(text.substring_char(c, d));
    let (f, g) = trim_span(&cs, e1 + 1, e2);
    let tag_text = text.substring_char(f, g);
    let season = group_text(tag, tag_text, 1);
    let episode = group_text(tag, tag_text, 2);
    quote_from_parts(body, speaker, season, episode, line)
}

/// An immutable, ordered collection of quotes.
pub struct QuoteStore {
    quotes: Vec<Quote>,
    digits: Pattern,
}

impl View for QuoteStore {
    type V = Seq<QuoteView>;

    closed spec fn view(&self) -> Seq<QuoteView> {
        self.quotes@.map_values(|q: Quote| q@)
    }
}

impl QuoteStore {
    /// The store holds the digit-run pattern, compiled from `DIGITS_PATTERN`.
    pub closed spec fn wf(&self) -> bool {
        self.digits.source() == DIGITS_PATTERN@
    }

    pub(crate) fn digits(&self) -> (r: &Pattern)
        requires
            self.wf(),
        ensures
            r.source() == DIGITS_PATTERN@,
    {
        &self.digits
    }

    /// A store of `quotes`, in their order; `None` where the regex engine
    /// refuses `DIGITS_PATTERN`.
    pub fn from_quotes(quotes: Vec<Quote>) -> (r: Option<QuoteStore>)
        ensures
            r is Some <==> regex_compiles(DIGITS_PATTERN@),
            r matches Some(st) ==> st.wf() && st@ == quotes@.map_values(|q: Quote| q@),
    {
        match Pattern::new(DIGITS_PATTERN) {
            Some(digits) => Some(QuoteStore { quotes, digits }),
            None => None,
        }
    }

    /// Loads the store from the lines of a quote source. Where the regex
    /// engine accepts the library's two patterns, the result is exactly what
    /// the lines give; otherwise it is `PatternUnavailable`.
    pub fn load(lines: &Vec<String>) -> (r: Result<QuoteStore, LoadError>)
        requires
            lines@.len() < usize::MAX,
        ensures
            r matches Ok(st) ==> st.wf() && load_result(lines_view(lines@), lines@.len())
                == Ok::<Seq<QuoteView>, LoadError>(st@),
            regex_compiles(TAG_PATTERN@) && regex_compiles(DIGITS_PATTERN@) ==> (r is Ok
                <==> load_result(lines_view(lines@), lines@.len()) is Ok),
            regex_compiles(TAG_PATTERN@) && regex_compiles(DIGITS_PATTERN@) ==> (r matches Err(e)
                ==> load_result(lines_view(lines@), lines@.len()) == Err::<
                Seq<QuoteView>,
                LoadError,
            >(e)),
            r == Err::<QuoteStore, LoadError>(LoadError::PatternUnavailable) <==> !(regex_compiles(
                TAG_PATTERN@,
            ) && regex_compiles(DIGITS_PATTERN@)),
    {
        let tag = match Pattern::new(TAG_PATTERN) {
            Some(p) => p,
            None => {
                return Err(LoadError::PatternUnavailable);
            },
        };
        let digits = match Pattern::new(DIGITS_PATTERN) {
            Some(p) => p,
            None => {
                return Err(LoadError::PatternUnavailable);
            },
        };
        match parse_lines(lines, &tag) {
            Ok(quotes) => Ok(QuoteStore { quotes, digits }),
            Err(e) => {
                proof {
                    lemma_load_never_lacks_pattern(lines_view(lines@), lines@.len());
                }
                Err(e)
            },
        }
    }

    /// The number of quotes.
    pub fn len(&self) -> (r: usize)
        ensures
            r == self@.len(),
    {
        self.quotes.len()
    }

    /// The reply text for the quote at index `i`.
    pub fn quote_at(&self, i: usize) -> (r: String)
        requires
            i < self@.len(),
        ensures
            r@ == formatted_text(self@[i as int]),
    {
        self.quotes[i].formatted()
    }

    /// Indices of the quotes of season `s`, in order.
    fn season_indices(&self, s: u8) -> (r: Vec<usize>)
        ensures
            r@.len() == season_quotes(self@, s).len(),
            forall|j: int|
                0 <= j < r@.len() ==> r@[j] < self@.len() && self@[#[trigger] r@[j] as int]
                    == season_quotes(self@, s)[j],
    {
        let mut ids: Vec<usize> = Vec::new();
        let mut i: usize = 0;
        while i < self.quotes.len()
            invariant
                i <= self@.len(),
                self@.len() == self.quotes@.len(),
                ids@.len() == season_quotes(self@.subrange(0, i as int), s).len(),
                forall|j: int|
                    0 <= j < ids@.len() ==> ids@[j] < i && self@[#[trigger] ids@[j] as int]
                        == season_quotes(self@.subrange(0, i as int), s)[j],
            decreases self@.len() - i,
        {
            let ghost sub = self@.subrange(0, i + 1);
            assert(sub.drop_last() =~= self@.subrange(0, i as int));
            if self.quotes[i].season == s {
                ids.push(i);
            }
            i = i + 1;
        }
        assert(self@.subrange(0, self@.len() as int) =~= self@);
        ids
    }

    /// The reply text for the `k`-th quote of season `season`.
    pub fn season_quote_at(&self, season: u8, k: usize) -> (r: String)
        requires
            k < season_quotes(self@, season).len(),
        ensures
            r@ == formatted_text(season_quotes(self@, season)[k as int]),
    {
        let ids = self.season_indices(season);
        let i = ids[k];
        assert(self@[ids@[k as int] as int] == season_quotes(self@, season)[k as int]);
        self.quotes[i].formatted()
    }

    /// The reply text for a quote chosen uniformly at random.
    pub fn pick_random(&self) -> (r: Result<String, PickError>)
        ensures
            r is Err <==> self@.len() == 0,
            r matches Ok(t) ==> exists|i: int| 0 <= i < self@.len() && t@ == formatted_text(self@[i]),
    {
        let n = self.quotes.len();
        if n == 0 {
            return Err(PickError::EmptyStore);
        }
        let i = random_below(n);
        Ok(self.quote_at(i))
    }

    /// The reply text for a quote of season `season` chosen uniformly at
    /// random, or `SEASON_MISS_REPLY` where the season has none.
    pub fn pick_random_for_season(&self, season: u8) -> (r: String)
        ensures
            season_reply(self@, season, r@),
    {
        let ids = self.season_indices(season);
        if ids.len() == 0 {
            return SEASON_MISS_REPLY.to_string();
        }
        let k = random_below(ids.len());
        self.season_quote_at(season, k)
    }
}

/// `r` is a reply to a request for season `season`: a quote of that season,
/// or `SEASON_MISS_REPLY` exactly where there is none.
pub open spec fn season_reply(qs: Seq<QuoteView>, season: u8, r: Seq<char>) -> bool {
    let sq = season_quotes(qs, season);
    &&& sq.len() == 0 ==> r == SEASON_MISS_REPLY@
    &&& sq.len() > 0 ==> exists|k: int| 0 <= k < sq.len() && r == formatted_text(sq[k])
}

pub open spec fn quotes_result(r: Result<Vec<Quote>, LoadError>) -> Result<Seq<QuoteView>, LoadError> {
    match r {
        Ok(qs) => Ok(qs@.map_values(|q: Quote| q@)),
        Err(e) => Err(e),
    }
}

/// Parsing lines never reports a missing pattern.
proof fn lemma_load_never_lacks_pattern(lines: Seq<Seq<char>>, n: nat)
    ensures
        load_result(lines, n) != Err::<Seq<QuoteView>, LoadError>(LoadError::PatternUnavailable),
    decreases n,
{
    if n > 0 && n <= lines.len() {
        lemma_load_never_lacks_pattern(lines, (n - 1) as nat);
    }
}

/// Once a prefix of the lines fails, every longer prefix fails the same way.
pub(crate) proof fn lemma_error_persists(lines: Seq<Seq<char>>, m: nat, n: nat)
    requires
        m <= n <= lines.len(),
        load_result(lines, m) is Err,
    ensures
        load_result(lines, n) == load_result(lines, m),
    decreases n,
{
    if n > m {
        lemma_error_persists(lines, m, (n - 1) as nat);
    }
}

/// Parses the lines of a quote source, with `tag` compiled from `TAG_PATTERN`.
pub fn parse_lines(lines: &Vec<String>, tag: &Pattern) -> (r: Result<Vec<Quote>, LoadError>)
    requires
        tag.source() == TAG_PATTERN@,
        lines@.len() < usize::MAX,
    ensures
        quotes_result(r) == load_result(lines_view(lines@), lines@.len()),
{
    let ghost ls = lines_view(lines@);
    let mut qs: Vec<Quote> = Vec::new();
    assert(qs@.map_values(|q: Quote| q@) =~= seq![]);
    let mut i: usize = 0;
    while i < lines.len()
        invariant
            i <= lines@.len() < usize::MAX,
            ls == lines_view(lines@),
            tag.source() == TAG_PATTERN@,
            load_result(ls, i as nat) == Ok::<Seq<QuoteView>, LoadError>(
                qs@.map_values(|q: Quote| q@),
            ),
        decreases lines@.len() - i,
    {
        let text = lines[i].as_str();
        assert(ls[i as int] == text@);
        if text.unicode_len() > 0 {
            match parse_line(text, i + 1, tag) {
                Ok(q) => {
                    qs.push(q);
                    assert(qs@.map_values(|q: Quote| q@) =~= load_result(ls, i as nat)->Ok_0.push(q@));
                },
                Err(e) => {
                    proof {
                        lemma_error_persists(ls, (i + 1) as nat, lines@.len());
                    }
                    return Err(e);
                },
            }
        }
        i = i + 1;
    }
    Ok(qs)
}

} // verus!
