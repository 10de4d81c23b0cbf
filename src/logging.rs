//! Decisions taken when a member logs a session: whether the entry needs
//! confirming, where its time goes, how a quote is shown under the reply,
//! and when the guild's collective hours are announced.

use vstd::prelude::*;

verus! {

/// Sessions longer than this many minutes are confirmed before they are kept.
pub const CONFIRM_ABOVE_MINUTES: i32 = 300;

/// Whether a session of `minutes` must be confirmed before it is kept.
pub fn needs_confirmation(minutes: i32) -> (r: bool)
    ensures
        r == (minutes > 300),
{
    minutes > CONFIRM_ABOVE_MINUTES
}

/// Why a session's time could not be placed.
#[derive(Clone, Copy, Debug, PartialEq, Eq, Structural)]
pub enum OffsetError {
    /// A western and an eastern UTC offset were both given.
    MultipleOffsets,
}

/// When a session logged at `now` took place, given the member's UTC offset
/// in minutes west (`minus_offset`, zero or negative) or east
/// (`plus_offset`, zero or positive) of UTC: `Ok(None)` when neither is
/// given (the store stamps the entry itself), the shifted instant when one
/// is, and an error when both are.
pub fn offset_occurred_at(now: i64, minus_offset: i64, plus_offset: i64) -> (r: Result<
    Option<i64>,
    OffsetError,
>)
    requires
        -840 <= minus_offset <= 840,
        -840 <= plus_offset <= 840,
        i64::MIN + 50400 <= now <= i64::MAX - 50400,
    ensures
        minus_offset != 0 && plus_offset != 0 ==> r == Err::<Option<i64>, OffsetError>(
            OffsetError::MultipleOffsets,
        ),
        minus_offset != 0 && plus_offset == 0 ==> r == Ok::<Option<i64>, OffsetError>(
            Some((now + 60 * minus_offset) as i64),
        ),
        minus_offset == 0 && plus_offset != 0 ==> r == Ok::<Option<i64>, OffsetError>(
            Some((now + 60 * plus_offset) as i64),
        ),
        minus_offset == 0 && plus_offset == 0 ==> r == Ok::<Option<i64>, OffsetError>(None),
{
    if minus_offset != 0 && plus_offset != 0 {
        Err(OffsetError::MultipleOffsets)
    } else if minus_offset != 0 {
        Ok(Some(now + 60 * minus_offset))
    } else if plus_offset != 0 {
        Ok(Some(now + 60 * plus_offset))
    } else {
        Ok(None)
    }
}

/// After every tenth session in the guild, the guild's collective time in
/// whole hours is announced.
pub fn collective_hours_milestone(guild_count: u64, guild_minutes: u64) -> (r: Option<u64>)
    ensures
        r == (if guild_count % 10 == 0 {
            Some(guild_minutes / 60)
        } else {
            None::<u64>
        }),
{
    if guild_count % 10 == 0 {
        Some(guild_minutes / 60)
    } else {
        None
    }
}

/// `c` is an ASCII punctuation character.
pub open spec fn is_ascii_punctuation(c: char) -> bool {
    ('!' <= c <= '/') || (':' <= c <= '@') || ('[' <= c <= '`') || ('{' <= c <= '~')
}

/// What a character of a quote becomes in a reply: asterisks are dropped,
/// ASCII punctuation other than `_` and `~` is escaped with a backslash, and
/// anything else is kept.
pub open spec fn quote_piece(c: char) -> Seq<char> {
    if c == '*' {
        Seq::empty()
    } else if is_ascii_punctuation(c) && c != '_' && c != '~' {
        seq!['\\', c]
    } else {
        seq![c]
    }
}

/// A quote as shown in a reply: each character replaced by its piece.
pub open spec fn escaped_quote(s: Seq<char>) -> Seq<char>
    decreases s.len(),
{
    if s.len() == 0 {
        Seq::empty()
    } else {
        escaped_quote(s.drop_last()) + quote_piece(s.last())
    }
}

/// The characters of a quote, made safe to show inside the reply's
/// emphasis markup.
pub fn escape_quote(quote: &Vec<char>) -> (r: Vec<char>)
    ensures
        r@ == escaped_quote(quote@),
{
    let mut out: Vec<char> = Vec::new();
    let mut i: usize = 0;
    while i < quote.len()
        invariant
            i <= quote@.len(),
            out@ == escaped_quote(quote@.subrange(0, i as int)),
        decreases quote@.len() - i,
    {
        let c = quote[i];
        proof {
            assert(quote@.subrange(0, i + 1).drop_last() =~= quote@.subrange(0, i as int));
        }
        if c == '*' {
        } else if (('!' <= c && c <= '/') || (':' <= c && c <= '@') || ('[' <= c && c <= '`') || (
        '{' <= c && c <= '~')) && c != '_' && c != '~' {
            out.push('\\');
            out.push(c);
        } else {
            out.push(c);
        }
        i = i + 1;
        proof {
            assert(out@ =~= escaped_quote(quote@.subrange(0, i as int)));
        }
    }
    proof {
        assert(quote@.subrange(0, quote@.len() as int) =~= quote@);
    }
    out
}

} // verus!
