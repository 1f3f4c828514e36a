//! Values that several commands take: compression levels and snapshots.

use vstd::prelude::*;
use crate::text;

verus! {

/// How hard to compress.
#[derive(Debug, Copy, Clone, PartialEq, Eq, Structural)]
pub enum Compression {
    /// A level of its own.
    Manual(i32),
    /// The least work.
    Fastest,
    /// Little work.
    Fast,
    /// A middle way.
    Balanced,
    /// More work.
    Better,
    /// The most work.
    Best,
}

impl Compression {
    /// The level that stands for each name.
    pub open spec fn level(self) -> i32 {
        match self {
            Compression::Manual(level) => level,
            Compression::Fastest => 1,
            Compression::Fast => 3,
            Compression::Balanced => 5,
            Compression::Better => 10,
            Compression::Best => 19,
        }
    }

    /// The text that stands for a level.
    pub open spec fn named(self) -> Seq<char> {
        match self {
            Compression::Fastest => "fastest"@,
            Compression::Fast => "fast"@,
            Compression::Balanced => "balanced"@,
            Compression::Better => "better"@,
            Compression::Best => "best"@,
            Compression::Manual(level) => "level:"@ + text::decimal_int(level as int),
        }
    }

    /// What a text reads as: one of the names, whatever the case of its letters,
    /// or `level:` and a number.
    pub open spec fn read(s: Seq<char>) -> Result<Compression, Seq<char>> {
        if text::is_word(s, "fastest"@) {
            Ok(Compression::Fastest)
        } else if text::is_word(s, "fast"@) {
            Ok(Compression::Fast)
        } else if text::is_word(s, "balanced"@) {
            Ok(Compression::Balanced)
        } else if text::is_word(s, "better"@) {
            Ok(Compression::Better)
        } else if text::is_word(s, "best"@) {
            Ok(Compression::Best)
        } else if begins_with(s, "level:"@) {
            let val = s.skip("level:"@.len() as int);
            match text::signed(val) {
                Some(n) => if i32::MIN <= n <= i32::MAX {
                    Ok(Compression::Manual(n as i32))
                } else {
                    Err("Invalid compression level: "@ + val)
                },
                None => Err("Invalid compression level: "@ + val),
            }
        } else {
            Err("Invalid compression format: "@ + s)
        }
    }

    /// The level to compress with.
    pub fn to_level(&self) -> (r: i32)
        ensures
            r == self.level(),
    {
        match self {
            Compression::Manual(level) => *level,
            Compression::Fastest => 1,
            Compression::Fast => 3,
            Compression::Balanced => 5,
            Compression::Better => 10,
            Compression::Best => 19,
        }
    }

    /// Reads a compression level.
    pub fn from_str(s: &str) -> (r: Result<Compression, String>)
        ensures
            text::agrees(r, Compression::read(s@)),
    {
        if text::word_is(s, "fastest") {
            return Ok(Compression::Fastest);
        }
        if text::word_is(s, "fast") {
            return Ok(Compression::Fast);
        }
        if text::word_is(s, "balanced") {
            return Ok(Compression::Balanced);
        }
        if text::word_is(s, "better") {
            return Ok(Compression::Better);
        }
        if text::word_is(s, "best") {
            return Ok(Compression::Best);
        }
        match after(s, "level:") {
            Some(val) => match text::parse_signed(val, i32::MIN as i128, i32::MAX as i128) {
                Some(n) => Ok(Compression::Manual(n as i32)),
                None => Err(text::join2("Invalid compression level: ", val)),
            },
            None => Err(text::join2("Invalid compression format: ", s)),
        }
    }

    /// The text that stands for this level.
    pub fn to_text(&self) -> (r: String)
        ensures
            r@ == self.named(),
    {
        match self {
            Compression::Fastest => "fastest".to_owned(),
            Compression::Fast => "fast".to_owned(),
            Compression::Balanced => "balanced".to_owned(),
            Compression::Better => "better".to_owned(),
            Compression::Best => "best".to_owned(),
            Compression::Manual(level) => text::join2("level:", text::signed_text(*level).as_str()),
        }
    }
}

/// Whether a text begins with another.
pub open spec fn begins_with(s: Seq<char>, head: Seq<char>) -> bool {
    s.len() >= head.len() && s.take(head.len() as int) == head
}

/// What stands behind `head` in a text that begins with it.
fn after<'a>(s: &'a str, head: &str) -> (r: Option<&'a str>)
    ensures
        match r {
            Some(rest) => begins_with(s@, head@) && rest@ == s@.skip(head@.len() as int),
            None => !begins_with(s@, head@),
        },
{
    let n: usize = s.unicode_len();
    let h: usize = head.unicode_len();
    if n < h {
        return None;
    }
    assert(s@.subrange(0, h as int) =~= s@.take(h as int));
    if text::same(s.substring_char(0, h), head) {
        assert(s@.subrange(h as int, n as int) =~= s@.skip(h as int));
        Some(s.substring_char(h, n))
    } else {
        None
    }
}

/// Reads a compression level of the command line.
pub fn parse_compression_level(s: &str) -> (r: Result<Compression, String>)
    ensures
        text::agrees(r, Compression::read(s@)),
{
    Compression::from_str(s)
}

/// Reads a compression level of the configuration file, if there is one.
pub fn deserialize_compression_opt(opt: Option<String>) -> (r: Result<Option<Compression>, String>)
    ensures
        text::agrees(r, text::optional(opt, |s: Seq<char>| Compression::read(s))),
{
    match opt {
        None => Ok(None),
        Some(s) => match Compression::from_str(s.as_str()) {
            Ok(c) => Ok(Some(c)),
            Err(e) => Err(e),
        },
    }
}

/// The text that stands for a compression level reads as that level.
pub proof fn law_compression_reads_back(c: Compression)
    ensures
        Compression::read(c.named()) == Ok::<Compression, Seq<char>>(c),
{
    reveal_strlit("fastest");
    reveal_strlit("fast");
    reveal_strlit("balanced");
    reveal_strlit("better");
    reveal_strlit("best");
    reveal_strlit("level:");
    match c {
        Compression::Manual(level) => {
            let s = c.named();
            let head = "level:"@;
            let tail = text::decimal_int(level as int);
            text::law_signed_decimal_reads_back(level as int);
            assert(s.take(head.len() as int) =~= head);
            assert(s.skip(head.len() as int) =~= tail);
            assert(s[0] == 'l' && s[5] == ':');
            assert(text::small(s[0]) == 'l');
            assert(!text::is_word(s, "fastest"@));
            assert(!text::is_word(s, "fast"@));
            assert(!text::is_word(s, "balanced"@));
            assert(!text::is_word(s, "better"@));
            assert(!text::is_word(s, "best"@));
        },
        Compression::Fastest => {
            assert(text::is_word(c.named(), "fastest"@));
        },
        Compression::Fast => {
            assert(text::is_word(c.named(), "fast"@));
        },
        Compression::Balanced => {
            assert(text::is_word(c.named(), "balanced"@));
        },
        Compression::Better => {
            assert(text::small(c.named()[1]) != "balanced"@[1]);
            assert(text::is_word(c.named(), "better"@));
        },
        Compression::Best => {
            assert(text::small(c.named()[0]) != "fast"@[0]);
            assert(text::is_word(c.named(), "best"@));
        },
    }
}

/// The highest verbosity level.
pub const MAX_VERBOSITY: u32 = 3;

/// What a verbosity level comes to: a number from 0 to 3.
pub open spec fn verbosity_level(n: nat) -> Result<u32, Seq<char>> {
    if n <= MAX_VERBOSITY {
        Ok(n as u32)
    } else {
        Err("verbosity must be between 0 and 3"@)
    }
}

/// What a verbosity level reads as.
pub open spec fn verbosity(s: Seq<char>) -> Result<u32, Seq<char>> {
    match text::unsigned(s) {
        Some(n) => if n <= u32::MAX {
            verbosity_level(n)
        } else {
            Err("'"@ + s + "' is not a valid number"@)
        },
        None => Err("'"@ + s + "' is not a valid number"@),
    }
}

/// Reads a verbosity level of the command line.
pub fn parse_verbosity(s: &str) -> (r: Result<u32, String>)
    ensures
        text::agrees(r, verbosity(s@)),
{
    match text::parse_unsigned(s, u32::MAX as u128) {
        Some(n) => {
            if n <= MAX_VERBOSITY as u128 {
                Ok(n as u32)
            } else {
                Err("verbosity must be between 0 and 3".to_owned())
            }
        },
        None => Err(text::join3("'", s, "' is not a valid number")),
    }
}

/// What a verbosity level in the configuration file comes to, if there is one.
pub open spec fn verbosity_value(opt: Option<u32>) -> Result<Option<u32>, Seq<char>> {
    match opt {
        Some(n) => match verbosity_level(n as nat) {
            Ok(level) => Ok(Some(level)),
            Err(e) => Err(e),
        },
        None => Ok(None),
    }
}

/// Takes a verbosity level from the configuration file.
pub fn deserialize_verbosity_opt(opt: Option<u32>) -> (r: Result<Option<u32>, String>)
    ensures
        text::agrees(r, verbosity_value(opt)),
{
    match opt {
        Some(n) => {
            if n <= MAX_VERBOSITY {
                Ok(Some(n))
            } else {
                Err("verbosity must be between 0 and 3".to_owned())
            }
        },
        None => Ok(None),
    }
}

/// A snapshot to work with.
#[derive(Debug, Clone, Default, PartialEq)]
pub enum UseSnapshot {
    /// The most recent one.
    #[default]
    Latest,
    /// The one whose identifier begins like this.
    SnapshotId(String),
}

impl UseSnapshot {
    /// The text that stands for a snapshot.
    pub open spec fn named(self) -> Seq<char> {
        match self {
            UseSnapshot::Latest => "latest"@,
            UseSnapshot::SnapshotId(id) => id@,
        }
    }

    /// What a text reads as: `latest`, whatever the case of its letters, or any
    /// other text as an identifier.
    pub open spec fn reads_as(s: Seq<char>, r: Result<UseSnapshot, String>) -> bool {
        match r {
            Ok(UseSnapshot::Latest) => text::is_word(s, "latest"@),
            Ok(UseSnapshot::SnapshotId(id)) => !text::is_word(s, "latest"@) && s.len() > 0 && id@ == s,
            Err(e) => s.len() == 0 && e@ == "invalid snapshot: use 'latest' or a snapshot ID"@,
        }
    }

    /// Reads the name of a snapshot.
    pub fn from_str(s: &str) -> (r: Result<UseSnapshot, String>)
        ensures
            UseSnapshot::reads_as(s@, r),
    {
        proof {
            reveal_strlit("latest");
        }
        if text::word_is(s, "latest") {
            Ok(UseSnapshot::Latest)
        } else if !s.is_empty() {
            Ok(UseSnapshot::SnapshotId(s.to_owned()))
        } else {
            Err("invalid snapshot: use 'latest' or a snapshot ID".to_owned())
        }
    }

    /// The text that stands for this snapshot.
    pub fn to_text(&self) -> (r: String)
        ensures
            r@ == self.named(),
    {
        match self {
            UseSnapshot::Latest => "latest".to_owned(),
            UseSnapshot::SnapshotId(id) => id.clone(),
        }
    }
}

/// Reads the name of a snapshot in the configuration file, if there is one.
pub fn deserialize_use_snapshot_opt(opt: Option<String>) -> (r: Result<Option<UseSnapshot>, String>)
    ensures
        match (opt, r) {
            (None, Ok(None)) => true,
            (Some(s), Ok(Some(u))) => UseSnapshot::reads_as(s@, Ok(u)),
            (Some(s), Err(e)) => UseSnapshot::reads_as(s@, Err(e)),
            _ => false,
        },
{
    match opt {
        None => Ok(None),
        Some(s) => match UseSnapshot::from_str(s.as_str()) {
            Ok(u) => Ok(Some(u)),
            Err(e) => Err(e),
        },
    }
}

/// The text that stands for a snapshot reads as that snapshot, unless it is an
/// identifier that is empty or itself the word `latest`.
pub proof fn law_snapshot_reads_back(u: UseSnapshot)
    requires
        u matches UseSnapshot::SnapshotId(id) ==> id@.len() > 0 && !text::is_word(id@, "latest"@),
    ensures
        UseSnapshot::reads_as(u.named(), Ok(u)),
{
    reveal_strlit("latest");
}

/// A text reads as a level by name exactly where it is that name, in letters of either
/// case, and as a level by number exactly where it is none of the names and is `level:`
/// with a number that fits behind it.
pub proof fn law_levels_are_read_by_name_or_number(s: Seq<char>, c: Compression)
    ensures
        c is Fastest ==> (Compression::read(s) == Ok::<Compression, Seq<char>>(c) <==> text::is_word(s, "fastest"@)),
        c is Fast ==> (Compression::read(s) == Ok::<Compression, Seq<char>>(c) <==> text::is_word(s, "fast"@)),
        c is Balanced ==> (Compression::read(s) == Ok::<Compression, Seq<char>>(c) <==> text::is_word(s, "balanced"@)),
        c is Better ==> (Compression::read(s) == Ok::<Compression, Seq<char>>(c) <==> text::is_word(s, "better"@)),
        c is Best ==> (Compression::read(s) == Ok::<Compression, Seq<char>>(c) <==> text::is_word(s, "best"@)),
        c matches Compression::Manual(n) ==> (Compression::read(s) == Ok::<Compression, Seq<char>>(c) <==> s.len() >= 6
            && s.take(6) == "level:"@ && text::signed(s.skip(6)) == Some(n as int)),
{
    reveal_strlit("fastest");
    reveal_strlit("fast");
    reveal_strlit("balanced");
    reveal_strlit("better");
    reveal_strlit("best");
    reveal_strlit("level:");
    if s.len() > 0 {
        assert(text::is_word(s, "fastest"@) ==> text::small(s[0]) == 'f');
        assert(text::is_word(s, "fast"@) ==> text::small(s[0]) == 'f');
        assert(text::is_word(s, "balanced"@) ==> text::small(s[0]) == 'b');
        assert(text::is_word(s, "better"@) ==> text::small(s[0]) == 'b');
        assert(text::is_word(s, "best"@) ==> text::small(s[0]) == 'b');
    }
    if s.len() >= 6 && s.take(6) == "level:"@ {
        assert(s.take(6)[0] == s[0]);
        assert(s[0] == 'l' && text::small(s[0]) == 'l');
    }
}

/// The names stand for levels that grow with the work, from 1 to 19, and a level of its
/// own for itself.
pub proof fn law_more_work_is_a_higher_level(n: i32)
    ensures
        Compression::Manual(n).level() == n,
        Compression::Fastest.level() == 1,
        Compression::Fastest.level() < Compression::Fast.level() < Compression::Balanced.level()
            < Compression::Better.level() < Compression::Best.level(),
        Compression::Fast.level() == 3 && Compression::Balanced.level() == 5 && Compression::Better.level() == 10,
        Compression::Best.level() == 19,
{
}

/// A verbosity level is accepted exactly where it is a number from 0 to 3, and is that
/// number then, on the command line and in the configuration file alike.
pub proof fn law_verbosity_is_the_number(s: Seq<char>, n: u32)
    ensures
        verbosity(s) == Ok::<u32, Seq<char>>(n) <==> n <= 3 && text::unsigned(s) == Some(n as nat),
        n <= 3 ==> verbosity(text::decimal(n as nat)) == Ok::<u32, Seq<char>>(n),
        n <= 3 ==> verbosity_value(Some(n)) == Ok::<Option<u32>, Seq<char>>(Some(n)),
        n > 3 ==> verbosity(text::decimal(n as nat)) == Err::<u32, Seq<char>>("verbosity must be between 0 and 3"@),
        n > 3 ==> verbosity_value(Some(n)) == Err::<Option<u32>, Seq<char>>("verbosity must be between 0 and 3"@),
        verbosity_value(None) == Ok::<Option<u32>, Seq<char>>(None),
{
    text::law_decimal_reads_back(n as nat);
}

/// Every text but the empty one names a snapshot: the most recent one where it is the
/// word `latest` in letters of either case, and else the one whose identifier begins
/// like it.
pub proof fn law_every_text_names_a_snapshot(s: Seq<char>, id: String, r: Result<UseSnapshot, String>)
    requires
        UseSnapshot::reads_as(s, r),
    ensures
        r is Err <==> s.len() == 0,
        (r matches Ok(u) && u is Latest) <==> text::is_word(s, "latest"@),
        r matches Ok(UseSnapshot::SnapshotId(i)) ==> i@ == s,
        r matches Ok(u) ==> (u is Latest || u.named() == s),
        UseSnapshot::Latest.named() == "latest"@,
        UseSnapshot::SnapshotId(id).named() == id@,
{
    reveal_strlit("latest");
}

/// What stands in front of a text is what it begins with.
pub proof fn law_a_text_begins_with_its_head(head: Seq<char>, rest: Seq<char>, s: Seq<char>)
    ensures
        begins_with(head + rest, head),
        begins_with(s, head) ==> s == head + s.skip(head.len() as int),
{
    assert((head + rest).take(head.len() as int) =~= head);
    if begins_with(s, head) {
        assert(s =~= s.take(head.len() as int) + s.skip(head.len() as int));
    }
}

/// What is refused is told why: behind `level:` the number, and anything else as a
/// whole; and a verbosity that is a number as too large, anything else as no number.
pub proof fn law_why_a_level_is_refused(s: Seq<char>, e: Seq<char>)
    ensures
        Compression::read(s) == Err::<Compression, Seq<char>>(e) ==> e == (if s.len() >= 6 && s.take(6) == "level:"@ {
            "Invalid compression level: "@ + s.skip(6)
        } else {
            "Invalid compression format: "@ + s
        }),
        verbosity(s) == Err::<u32, Seq<char>>(e) ==> e == (if text::unsigned(s) matches Some(n) && n <= u32::MAX {
            "verbosity must be between 0 and 3"@
        } else {
            "'"@ + s + "' is not a valid number"@
        }),
{
    reveal_strlit("level:");
}

} // verus!
