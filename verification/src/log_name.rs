//! The names of logs: a family's prefix, a label, the date and time of the
//! run, and its parameters as tagged tokens. Names are made here and read
//! back here, and what is read back is what they were made from.
use crate::text::{
    decimal_digits, free_of, has_prefix, has_suffix, lemma_decimal_digits, lemma_digits_free,
    lemma_parse_decimal_digits, lemma_parse_written, lemma_split_cons, lemma_split_single,
    parse_decimal, parse_unsigned, pieces, push_decimal, range_has_prefix, range_has_suffix,
    range_is, ranges_within, split_on, split_ranges, to_chars,
};
use crate::timestamp::{display_text, format_display, parse_timestamp, timestamp_of};
use vstd::prelude::*;
use vstd::string::*;

verus! {

/// What a log's name tells of its run: the moment it began as shown to a
/// reader, the same moment as written in the name, the label that follows the
/// family (a disambiguating number or a workload kind), and up to two numeric
/// parameters.
pub type LogNameFields = (Seq<char>, Seq<char>, Seq<char>, Option<u32>, Option<u32>);

/// The fields of a parsed name as plain values.
pub open spec fn fields_view(t: (String, String, String, Option<u32>, Option<u32>)) -> LogNameFields {
    (t.0@, t.1@, t.2@, t.3, t.4)
}

/// Each token with an underscore before it, one after the other.
pub open spec fn join_tokens(tokens: Seq<Seq<char>>) -> Seq<char>
    decreases tokens.len(),
{
    if tokens.len() == 0 {
        Seq::empty()
    } else {
        seq!['_'] + tokens[0] + join_tokens(tokens.skip(1))
    }
}

/// A parameter token: a short tag and then a number.
pub open spec fn tagged(tag: Seq<char>, value: nat) -> Seq<char> {
    tag + decimal_digits(value)
}

/// The name of a log: the family's prefix, a label, the date, then the
/// parameter tokens, each after an underscore, and the extension.
pub open spec fn log_name_text(
    family: Seq<char>,
    label: Seq<char>,
    date: Seq<char>,
    tokens: Seq<Seq<char>>,
) -> Seq<char> {
    family + label + seq!['_'] + date + join_tokens(tokens) + ".csv"@
}

/// The underscore-separated pieces between a family's prefix and the
/// extension, for a name that has both.
pub open spec fn name_pieces(name: Seq<char>, family: Seq<char>) -> Option<Seq<Seq<char>>> {
    if has_prefix(name, family) && has_suffix(name.skip(family.len() as int), ".csv"@) {
        Some(split_on(name.subrange(family.len() as int, name.len() - ".csv"@.len()), '_'))
    } else {
        None
    }
}

/// The leading fields of a name and the pieces that follow the date. A name
/// needs a label and the two halves of a date that reads as a moment.
pub open spec fn log_name_head(name: Seq<char>, family: Seq<char>) -> Option<
    (Seq<char>, Seq<char>, Seq<char>, Seq<Seq<char>>),
> {
    match name_pieces(name, family) {
        None => None,
        Some(parts) => if parts.len() < 3 {
            None
        } else {
            let date = parts[1] + seq!['_'] + parts[2];
            match timestamp_of(date) {
                None => None,
                Some(ts) => Some((display_text(ts), date, parts[0], parts.skip(3))),
            }
        },
    }
}

/// What `s` reads as, as a 32-bit unsigned number.
pub open spec fn parse_u32_text(s: Seq<char>) -> Option<u32> {
    match parse_unsigned(s, u32::MAX as nat) {
        Some(n) => Some(n as u32),
        None => None,
    }
}

/// The parameter that `tag` names among `parts`: what follows the tag in the
/// last piece that begins with it, read as a number. `None` where no piece
/// begins with the tag or that last one holds no number.
pub open spec fn tagged_value(parts: Seq<Seq<char>>, tag: Seq<char>) -> Option<u32>
    decreases parts.len(),
{
    if parts.len() == 0 {
        None
    } else if has_prefix(parts.last(), tag) {
        parse_u32_text(parts.last().skip(tag.len() as int))
    } else {
        tagged_value(parts.drop_last(), tag)
    }
}

/// The fields of a name of `family` whose parameters carry the tags
/// `size_tag` and `duration_tag`.
pub open spec fn tagged_fields(
    name: Seq<char>,
    family: Seq<char>,
    size_tag: Seq<char>,
    duration_tag: Seq<char>,
) -> Option<LogNameFields> {
    match log_name_head(name, family) {
        None => None,
        Some((shown, date, label, rest)) => Some(
            (shown, date, label, tagged_value(rest, size_tag), tagged_value(rest, duration_tag)),
        ),
    }
}

/// The fields of a storage run's log name; its parameters are the buffer size
/// in megabytes and the duration in seconds.
pub open spec fn storage_stress_fields(name: Seq<char>) -> Option<LogNameFields> {
    tagged_fields(name, "storage_stress_"@, "buf"@, "dur"@)
}

/// The fields of a processor run's log name; its parameters are the intensity
/// and the duration in seconds.
pub open spec fn cpu_stress_fields(name: Seq<char>) -> Option<LogNameFields> {
    tagged_fields(name, "cpu_stress_"@, "int"@, "dur"@)
}

/// The tag under which a selectable run whose kind is written `label` names
/// its size: the matrix size, the block size or the buffer size. A kind
/// without a size, and a label that is no kind, has none.
pub open spec fn size_tag_of(label: Seq<char>) -> Option<Seq<char>> {
    if label == "matrix"@ {
        Some("size"@)
    } else if label == "compression"@ {
        Some("block"@)
    } else if label == "ram"@ {
        Some("buf"@)
    } else {
        None
    }
}

/// The size that the pieces after the date give a run of the kind `label`.
pub open spec fn size_value(label: Seq<char>, rest: Seq<Seq<char>>) -> Option<u32> {
    match size_tag_of(label) {
        Some(tag) => tagged_value(rest, tag),
        None => None,
    }
}

/// The fields of a selectable run's log name; its label is the workload
/// kind, and its parameters are the size under the kind's tag and the
/// duration in seconds.
pub open spec fn selectable_stress_fields(name: Seq<char>) -> Option<LogNameFields> {
    match log_name_head(name, "selectable_"@) {
        None => None,
        Some((shown, date, label, rest)) => Some(
            (shown, date, label, size_value(label, rest), tagged_value(rest, "dur"@)),
        ),
    }
}

/// Cuts the name whose characters are `chars` into the pieces between the
/// family's prefix and the extension. Gives `None` for a name that lacks
/// either.
pub fn split_name(chars: &Vec<char>, family: &str) -> (r: Option<Vec<(usize, usize)>>)
    ensures
        match r {
            Some(ranges) => ranges_within(ranges@, chars@.len()) && name_pieces(chars@, family@)
                == Some(pieces(chars@, ranges@)),
            None => name_pieces(chars@, family@) is None,
        },
{
    let family_chars = to_chars(family);
    let extension = to_chars(".csv");
    let n: usize = chars.len();
    assert(chars@.subrange(0, n as int) == chars@);
    if !range_has_prefix(chars, 0, n, &family_chars) {
        return None;
    }
    let from: usize = family_chars.len();
    assert(chars@.subrange(from as int, n as int) == chars@.skip(from as int));
    if !range_has_suffix(chars, from, n, &extension) {
        return None;
    }
    let to: usize = n - extension.len();
    Some(split_ranges(chars, from, to, '_'))
}

/// Reads the leading fields of `name`, whose characters are `chars`, and
/// cuts the name into its pieces.
fn parse_head(name: &str, chars: &Vec<char>, family: &str) -> (r: Option<
    (String, String, String, Vec<(usize, usize)>),
>)
    requires
        chars@ == name@,
    ensures
        match r {
            Some((shown, date, label, ranges)) => {
                &&& ranges@.len() >= 3
                &&& ranges_within(ranges@, chars@.len())
                &&& log_name_head(name@, family@) == Some(
                    (shown@, date@, label@, pieces(chars@, ranges@).skip(3)),
                )
            },
            None => log_name_head(name@, family@) is None,
        },
{
    let ranges = match split_name(chars, family) {
        Some(ranges) => ranges,
        None => {
            return None;
        },
    };
    let ghost parts = pieces(chars@, ranges@);
    if ranges.len() < 3 {
        return None;
    }
    proof {
        reveal_strlit("_");
        assert(ranges@[0].0 <= ranges@[0].1 && ranges@[0].1 <= chars@.len());
        assert(ranges@[1].0 <= ranges@[1].1 && ranges@[1].1 <= chars@.len());
        assert(ranges@[2].0 <= ranges@[2].1 && ranges@[2].1 <= chars@.len());
    }
    let mut date = String::from_str(name.substring_char(ranges[1].0, ranges[1].1));
    date.append("_");
    date.append(name.substring_char(ranges[2].0, ranges[2].1));
    proof {
        assert("_"@ =~= seq!['_']);
        assert(date@ =~= parts[1] + seq!['_'] + parts[2]);
    }
    match parse_timestamp(date.as_str()) {
        None => None,
        Some(ts) => {
            let shown = format_display(&ts);
            let label = String::from_str(name.substring_char(ranges[0].0, ranges[0].1));
            Some((shown, date, label, ranges))
        },
    }
}

/// Looks among the pieces after the date for the parameter that `tag` names.
/// The pieces are given as ranges of `chars`, the first three being the
/// label and the two halves of the date.
pub fn tagged_number(chars: &Vec<char>, ranges: &Vec<(usize, usize)>, tag: &str) -> (r: Option<
    u32,
>)
    requires
        ranges@.len() >= 3,
        ranges_within(ranges@, chars@.len()),
    ensures
        r == tagged_value(pieces(chars@, ranges@).skip(3), tag@),
{
    let tag_chars = to_chars(tag);
    let ghost rest = pieces(chars@, ranges@).skip(3);
    let mut found: Option<u32> = None;
    let mut i: usize = 3;
    assert(rest.take(0) =~= Seq::<Seq<char>>::empty());
    while i < ranges.len()
        invariant
            3 <= i <= ranges@.len(),
            ranges_within(ranges@, chars@.len()),
            tag_chars@ == tag@,
            rest == pieces(chars@, ranges@).skip(3),
            found == tagged_value(rest.take(i - 3), tag@),
        decreases ranges@.len() - i,
    {
        let (a, b) = ranges[i];
        proof {
            assert(ranges@[i as int].0 <= ranges@[i as int].1 && ranges@[i as int].1
                <= chars@.len());
            assert(rest.take(i - 3 + 1).last() == chars@.subrange(a as int, b as int));
            assert(rest.take(i - 3 + 1).drop_last() =~= rest.take(i - 3));
        }
        if range_has_prefix(chars, a, b, &tag_chars) {
            let value = parse_decimal(chars, a + tag_chars.len(), b, 0xffff_ffff);
            proof {
                assert(chars@.subrange(a + tag_chars@.len(), b as int) =~= chars@.subrange(
                    a as int,
                    b as int,
                ).skip(tag@.len() as int));
            }
            found = match value {
                Some(v) => Some(v as u32),
                None => None,
            };
        }
        i += 1;
    }
    assert(rest.take(i - 3) =~= rest);
    found
}

/// Reads a name of `family` whose parameters carry the two tags.
fn parse_tagged(name: &str, family: &str, size_tag: &str, duration_tag: &str) -> (r: Option<
    (String, String, String, Option<u32>, Option<u32>),
>)
    ensures
        match r {
            Some(t) => tagged_fields(name@, family@, size_tag@, duration_tag@) == Some(
                fields_view(t),
            ),
            None => tagged_fields(name@, family@, size_tag@, duration_tag@) is None,
        },
{
    let chars = to_chars(name);
    match parse_head(name, &chars, family) {
        None => None,
        Some((shown, date, label, ranges)) => {
            let size = tagged_number(&chars, &ranges, size_tag);
            let duration = tagged_number(&chars, &ranges, duration_tag);
            Some((shown, date, label, size, duration))
        },
    }
}

/// Reads the name of a storage run's log: `storage_stress_`, a disambiguating
/// label, the date and time, optional `buf` and `dur` parameters, `.csv`.
///
/// Gives the moment as shown to a reader, the date as written, the label, the
/// buffer size and the duration; `None` for a name of another shape.
pub fn parse_storage_stress_filename(name: &str) -> (r: Option<
    (String, String, String, Option<u32>, Option<u32>),
>)
    ensures
        match r {
            Some(t) => storage_stress_fields(name@) == Some(fields_view(t)),
            None => storage_stress_fields(name@) is None,
        },
{
    parse_tagged(name, "storage_stress_", "buf", "dur")
}

/// Reads the name of a processor run's log: `cpu_stress_`, a disambiguating
/// label, the date and time, optional `int` and `dur` parameters, `.csv`.
///
/// Gives the moment as shown to a reader, the date as written, the label, the
/// intensity and the duration; `None` for a name of another shape.
pub fn parse_cpu_stress_filename(name: &str) -> (r: Option<
    (String, String, String, Option<u32>, Option<u32>),
>)
    ensures
        match r {
            Some(t) => cpu_stress_fields(name@) == Some(fields_view(t)),
            None => cpu_stress_fields(name@) is None,
        },
{
    parse_tagged(name, "cpu_stress_", "int", "dur")
}

/// The tag under which a selectable run of the kind written `label` names
/// its size, if the kind has one.
pub fn selectable_size_tag(label: &str) -> (tag: Option<&'static str>)
    ensures
        match tag {
            Some(t) => size_tag_of(label@) == Some(t@),
            None => size_tag_of(label@) is None,
        },
{
    let chars = to_chars(label);
    let n: usize = chars.len();
    assert(chars@.subrange(0, n as int) == chars@);
    if range_is(&chars, 0, n, &to_chars("matrix")) {
        Some("size")
    } else if range_is(&chars, 0, n, &to_chars("compression")) {
        Some("block")
    } else if range_is(&chars, 0, n, &to_chars("ram")) {
        Some("buf")
    } else {
        None
    }
}

/// Reads the name of a selectable run's log: `selectable_`, the workload
/// kind, the date and time, then the parameters, `.csv`.
///
/// Gives the moment as shown to a reader, the date as written, the kind, the
/// size under the kind's tag and the duration; `None` for a name of another
/// shape.
pub fn parse_selectable_stress_filename(name: &str) -> (r: Option<
    (String, String, String, Option<u32>, Option<u32>),
>)
    ensures
        match r {
            Some(t) => selectable_stress_fields(name@) == Some(fields_view(t)),
            None => selectable_stress_fields(name@) is None,
        },
{
    let chars = to_chars(name);
    match parse_head(name, &chars, "selectable_") {
        None => None,
        Some((shown, date, label, ranges)) => {
            let size = match selectable_size_tag(label.as_str()) {
                Some(tag) => tagged_number(&chars, &ranges, tag),
                None => None,
            };
            let duration = tagged_number(&chars, &ranges, "dur");
            Some((shown, date, label, size, duration))
        },
    }
}

/// Begins a log's name: the family's prefix, the label, an underscore and the
/// date.
pub fn begin_log_name(family: &str, label: &str, date: &str) -> (out: String)
    ensures
        out@ == family@ + label@ + seq!['_'] + date@,
{
    proof {
        reveal_strlit("_");
    }
    let mut out = String::from_str(family);
    out.append(label);
    out.append("_");
    out.append(date);
    assert("_"@ =~= seq!['_']);
    out
}

/// Appends a parameter token to a log's name: an underscore, the tag, the
/// number.
pub fn push_tagged(out: &mut String, tag: &str, value: u64)
    ensures
        final(out)@ == old(out)@ + seq!['_'] + tagged(tag@, value as nat),
{
    proof {
        reveal_strlit("_");
    }
    out.append("_");
    out.append(tag);
    push_decimal(out, value);
    assert("_"@ =~= seq!['_']);
    assert(final(out)@ =~= old(out)@ + seq!['_'] + tagged(tag@, value as nat));
}

/// The name of a storage run's log.
pub open spec fn storage_stress_name_text(
    hash: u16,
    date: Seq<char>,
    buffer_mb: u32,
    duration_secs: u32,
) -> Seq<char> {
    log_name_text(
        "storage_stress_"@,
        decimal_digits(hash as nat),
        date,
        seq![tagged("buf"@, buffer_mb as nat), tagged("dur"@, duration_secs as nat)],
    )
}

/// The name of a processor run's log.
pub open spec fn cpu_stress_name_text(
    hash: u16,
    date: Seq<char>,
    intensity: u32,
    duration_secs: u32,
) -> Seq<char> {
    log_name_text(
        "cpu_stress_"@,
        decimal_digits(hash as nat),
        date,
        seq![tagged("int"@, intensity as nat), tagged("dur"@, duration_secs as nat)],
    )
}

/// Joining two tokens puts an underscore before each.
pub proof fn lemma_join_two(a: Seq<char>, b: Seq<char>)
    ensures
        join_tokens(seq![a, b]) == seq!['_'] + a + seq!['_'] + b,
{
    let t = seq![a, b];
    assert(t.skip(1) =~= seq![b]);
    assert(t.skip(1).skip(1) =~= Seq::<Seq<char>>::empty());
    assert(join_tokens(t.skip(1).skip(1)) =~= Seq::<char>::empty());
    assert(join_tokens(t.skip(1)) =~= seq!['_'] + b);
    assert(join_tokens(t) =~= seq!['_'] + a + seq!['_'] + b);
}

/// Joining three tokens puts an underscore before each.
pub proof fn lemma_join_three(a: Seq<char>, b: Seq<char>, c: Seq<char>)
    ensures
        join_tokens(seq![a, b, c]) == seq!['_'] + a + seq!['_'] + b + seq!['_'] + c,
{
    let t = seq![a, b, c];
    assert(t.skip(1) =~= seq![b, c]);
    lemma_join_two(b, c);
    assert(join_tokens(t) =~= seq!['_'] + a + seq!['_'] + b + seq!['_'] + c);
}

/// A log's name made from a disambiguating number, a date and two tagged
/// parameters.
fn tagged_log_name(
    family: &str,
    hash: u16,
    date: &str,
    size_tag: &str,
    size: u32,
    duration_tag: &str,
    duration: u32,
) -> (out: String)
    ensures
        out@ == log_name_text(
            family@,
            decimal_digits(hash as nat),
            date@,
            seq![tagged(size_tag@, size as nat), tagged(duration_tag@, duration as nat)],
        ),
{
    let mut label = String::new();
    push_decimal(&mut label, hash as u64);
    assert(label@ =~= decimal_digits(hash as nat));
    let mut out = begin_log_name(family, label.as_str(), date);
    push_tagged(&mut out, size_tag, size as u64);
    push_tagged(&mut out, duration_tag, duration as u64);
    out.append(".csv");
    proof {
        lemma_join_two(tagged(size_tag@, size as nat), tagged(duration_tag@, duration as nat));
        assert(out@ =~= log_name_text(
            family@,
            decimal_digits(hash as nat),
            date@,
            seq![tagged(size_tag@, size as nat), tagged(duration_tag@, duration as nat)],
        ));
    }
    out
}

/// Names the log of a storage run from its disambiguating number, the date
/// and time it began, its buffer size in megabytes and its duration.
pub fn storage_stress_log_name(hash: u16, date: &str, buffer_mb: u32, duration_secs: u32) -> (out:
    String)
    ensures
        out@ == storage_stress_name_text(hash, date@, buffer_mb, duration_secs),
{
    tagged_log_name("storage_stress_", hash, date, "buf", buffer_mb, "dur", duration_secs)
}

/// Names the log of a processor run from its disambiguating number, the date
/// and time it began, its intensity and its duration.
pub fn cpu_stress_log_name(hash: u16, date: &str, intensity: u32, duration_secs: u32) -> (out:
    String)
    ensures
        out@ == cpu_stress_name_text(hash, date@, intensity, duration_secs),
{
    tagged_log_name("cpu_stress_", hash, date, "int", intensity, "dur", duration_secs)
}

/// Every token holds no underscore.
pub open spec fn tokens_free(tokens: Seq<Seq<char>>) -> bool {
    forall|k: int| 0 <= k < tokens.len() ==> free_of(#[trigger] tokens[k], '_')
}

/// Cutting a first piece and joined tokens at the underscores gives the piece
/// and the tokens back.
pub proof fn lemma_split_joined(first: Seq<char>, tokens: Seq<Seq<char>>)
    requires
        free_of(first, '_'),
        tokens_free(tokens),
    ensures
        split_on(first + join_tokens(tokens), '_') == seq![first] + tokens,
    decreases tokens.len(),
{
    if tokens.len() == 0 {
        assert(first + join_tokens(tokens) =~= first);
        lemma_split_single(first, '_');
        assert(seq![first] + tokens =~= seq![first]);
    } else {
        let rest = tokens[0] + join_tokens(tokens.skip(1));
        assert(first + join_tokens(tokens) =~= first + seq!['_'] + rest);
        lemma_split_cons(first, rest, '_');
        assert(free_of(tokens[0], '_'));
        assert forall|k: int| 0 <= k < tokens.skip(1).len() implies free_of(
            #[trigger] tokens.skip(1)[k],
            '_',
        ) by {
            assert(tokens.skip(1)[k] == tokens[k + 1]);
        }
        lemma_split_joined(tokens[0], tokens.skip(1));
        assert(seq![first] + (seq![tokens[0]] + tokens.skip(1)) =~= seq![first] + tokens);
    }
}

/// The pieces of a made name are its label, the two halves of its date and
/// its tokens.
pub proof fn lemma_name_pieces(
    family: Seq<char>,
    label: Seq<char>,
    day: Seq<char>,
    time: Seq<char>,
    tokens: Seq<Seq<char>>,
)
    requires
        free_of(label, '_'),
        free_of(day, '_'),
        free_of(time, '_'),
        tokens_free(tokens),
    ensures
        name_pieces(log_name_text(family, label, day + seq!['_'] + time, tokens), family) == Some(
            seq![label, day, time] + tokens,
        ),
{
    let date = day + seq!['_'] + time;
    let name = log_name_text(family, label, date, tokens);
    let all = seq![day, time] + tokens;
    let body = label + join_tokens(all);
    assert(all.skip(1) =~= seq![time] + tokens);
    assert(all.skip(1).skip(1) =~= tokens);
    assert(all[0] == day);
    assert(all.skip(1)[0] == time);
    assert(join_tokens(all.skip(1)) =~= seq!['_'] + time + join_tokens(tokens));
    assert(join_tokens(all) =~= seq!['_'] + day + seq!['_'] + time + join_tokens(tokens));
    assert(name =~= family + body + ".csv"@);
    assert(name.take(family.len() as int) =~= family);
    assert(name.skip(family.len() as int) =~= body + ".csv"@);
    assert((body + ".csv"@).skip((body + ".csv"@).len() - ".csv"@.len()) =~= ".csv"@);
    assert(name.subrange(family.len() as int, name.len() - ".csv"@.len()) =~= body);
    assert forall|k: int| 0 <= k < all.len() implies free_of(#[trigger] all[k], '_') by {
        if k >= 2 {
            assert(all[k] == tokens[k - 2]);
        }
    }
    lemma_split_joined(label, all);
    assert(seq![label] + all =~= seq![label, day, time] + tokens);
}

/// The head of a made name holds its label and its date, where the date reads
/// as a moment.
pub proof fn lemma_log_name_head(
    family: Seq<char>,
    label: Seq<char>,
    day: Seq<char>,
    time: Seq<char>,
    tokens: Seq<Seq<char>>,
)
    requires
        free_of(label, '_'),
        free_of(day, '_'),
        free_of(time, '_'),
        tokens_free(tokens),
    ensures
        log_name_head(log_name_text(family, label, day + seq!['_'] + time, tokens), family)
            == match timestamp_of(day + seq!['_'] + time) {
            Some(ts) => Some((display_text(ts), day + seq!['_'] + time, label, tokens)),
            None => None,
        },
{
    lemma_name_pieces(family, label, day, time, tokens);
    let parts = seq![label, day, time] + tokens;
    assert(parts.skip(3) =~= tokens);
}

/// A token whose tag holds no underscore holds none.
pub proof fn lemma_tagged_free(tag: Seq<char>, value: nat)
    requires
        free_of(tag, '_'),
    ensures
        free_of(tagged(tag, value), '_'),
{
    lemma_digits_free(value, '_');
    let t = tagged(tag, value);
    assert forall|i: int| 0 <= i < t.len() implies #[trigger] t[i] != '_' by {
        if i < tag.len() {
            assert(t[i] == tag[i]);
        } else {
            assert(t[i] == decimal_digits(value)[i - tag.len()]);
        }
    }
}

/// Two tokens with different tags of one length give each tag its own number.
pub proof fn lemma_tagged_values(
    size_tag: Seq<char>,
    size: u32,
    duration_tag: Seq<char>,
    duration: u32,
)
    requires
        size_tag.len() == duration_tag.len(),
        size_tag != duration_tag,
    ensures
        tagged_value(
            seq![tagged(size_tag, size as nat), tagged(duration_tag, duration as nat)],
            size_tag,
        ) == Some(size),
        tagged_value(
            seq![tagged(size_tag, size as nat), tagged(duration_tag, duration as nat)],
            duration_tag,
        ) == Some(duration),
{
    let a = tagged(size_tag, size as nat);
    let b = tagged(duration_tag, duration as nat);
    let rest = seq![a, b];
    let n = size_tag.len() as int;
    lemma_parse_decimal_digits(size as nat, u32::MAX as nat);
    lemma_parse_decimal_digits(duration as nat, u32::MAX as nat);
    assert(rest.last() == b);
    assert(b.take(n) =~= duration_tag);
    assert(b.skip(n) =~= decimal_digits(duration as nat));
    assert(rest.drop_last() =~= seq![a]);
    assert(seq![a].last() == a);
    assert(a.take(n) =~= size_tag);
    assert(a.skip(n) =~= decimal_digits(size as nat));
    assert(has_prefix(a, size_tag));
    assert(!has_prefix(b, size_tag));
    assert(has_prefix(b, duration_tag));
    assert(tagged_value(seq![a], size_tag) == Some(size));
    assert(tagged_value(rest, size_tag) == tagged_value(rest.drop_last(), size_tag));
}

/// A name made from two tagged parameters reads back as the label, the date
/// and those two parameters, whenever the date reads as a moment.
pub proof fn lemma_tagged_round_trip(
    family: Seq<char>,
    hash: u16,
    day: Seq<char>,
    time: Seq<char>,
    size_tag: Seq<char>,
    size: u32,
    duration_tag: Seq<char>,
    duration: u32,
)
    requires
        free_of(day, '_'),
        free_of(time, '_'),
        free_of(size_tag, '_'),
        free_of(duration_tag, '_'),
        size_tag.len() == duration_tag.len(),
        size_tag != duration_tag,
    ensures
        tagged_fields(
            log_name_text(
                family,
                decimal_digits(hash as nat),
                day + seq!['_'] + time,
                seq![tagged(size_tag, size as nat), tagged(duration_tag, duration as nat)],
            ),
            family,
            size_tag,
            duration_tag,
        ) == match timestamp_of(day + seq!['_'] + time) {
            Some(ts) => Some(
                (
                    display_text(ts),
                    day + seq!['_'] + time,
                    decimal_digits(hash as nat),
                    Some(size),
                    Some(duration),
                ),
            ),
            None => None,
        },
{
    let tokens = seq![tagged(size_tag, size as nat), tagged(duration_tag, duration as nat)];
    lemma_digits_free(hash as nat, '_');
    lemma_tagged_free(size_tag, size as nat);
    lemma_tagged_free(duration_tag, duration as nat);
    lemma_log_name_head(family, decimal_digits(hash as nat), day, time, tokens);
    lemma_tagged_values(size_tag, size, duration_tag, duration);
}

/// The name made for a storage run reads back as the buffer size and the
/// duration the run was started with, whenever its date reads as a moment.
pub proof fn storage_stress_name_round_trip(
    hash: u16,
    day: Seq<char>,
    time: Seq<char>,
    buffer_mb: u32,
    duration_secs: u32,
)
    requires
        free_of(day, '_'),
        free_of(time, '_'),
    ensures
        storage_stress_fields(
            storage_stress_name_text(hash, day + seq!['_'] + time, buffer_mb, duration_secs),
        ) == match timestamp_of(day + seq!['_'] + time) {
            Some(ts) => Some(
                (
                    display_text(ts),
                    day + seq!['_'] + time,
                    decimal_digits(hash as nat),
                    Some(buffer_mb),
                    Some(duration_secs),
                ),
            ),
            None => None,
        },
{
    reveal_strlit("buf");
    reveal_strlit("dur");
    assert("buf"@[0] != "dur"@[0]);
    lemma_tagged_round_trip(
        "storage_stress_"@,
        hash,
        day,
        time,
        "buf"@,
        buffer_mb,
        "dur"@,
        duration_secs,
    );
}

/// The name made for a processor run reads back as the intensity and the
/// duration the run was started with, whenever its date reads as a moment.
pub proof fn cpu_stress_name_round_trip(
    hash: u16,
    day: Seq<char>,
    time: Seq<char>,
    intensity: u32,
    duration_secs: u32,
)
    requires
        free_of(day, '_'),
        free_of(time, '_'),
    ensures
        cpu_stress_fields(
            cpu_stress_name_text(hash, day + seq!['_'] + time, intensity, duration_secs),
        ) == match timestamp_of(day + seq!['_'] + time) {
            Some(ts) => Some(
                (
                    display_text(ts),
                    day + seq!['_'] + time,
                    decimal_digits(hash as nat),
                    Some(intensity),
                    Some(duration_secs),
                ),
            ),
            None => None,
        },
{
    reveal_strlit("int");
    reveal_strlit("dur");
    assert("int"@[0] != "dur"@[0]);
    lemma_tagged_round_trip(
        "cpu_stress_"@,
        hash,
        day,
        time,
        "int"@,
        intensity,
        "dur"@,
        duration_secs,
    );
}

/// Names the log of a selectable run whose workload has a size parameter:
/// the kind, the date and time, then the size under its tag, the thread
/// count and the duration.
pub fn sized_selectable_log_name(
    kind: &str,
    date: &str,
    size_tag: &str,
    size: usize,
    threads: usize,
    duration_secs: u32,
) -> (out: String)
    ensures
        out@ == log_name_text(
            "selectable_"@,
            kind@,
            date@,
            seq![
                tagged(size_tag@, size as nat),
                tagged("threads"@, threads as nat),
                tagged("dur"@, duration_secs as nat),
            ],
        ),
{
    let mut out = begin_log_name("selectable_", kind, date);
    push_tagged(&mut out, size_tag, size as u64);
    push_tagged(&mut out, "threads", threads as u64);
    push_tagged(&mut out, "dur", duration_secs as u64);
    out.append(".csv");
    proof {
        lemma_join_three(
            tagged(size_tag@, size as nat),
            tagged("threads"@, threads as nat),
            tagged("dur"@, duration_secs as nat),
        );
        assert(out@ =~= log_name_text(
            "selectable_"@,
            kind@,
            date@,
            seq![
                tagged(size_tag@, size as nat),
                tagged("threads"@, threads as nat),
                tagged("dur"@, duration_secs as nat),
            ],
        ));
    }
    out
}

/// Names the log of a selectable run whose workload has no size parameter:
/// the kind, the date and time, the thread count and the duration.
pub fn plain_selectable_log_name(kind: &str, date: &str, threads: usize, duration_secs: u32) -> (out:
    String)
    ensures
        out@ == log_name_text(
            "selectable_"@,
            kind@,
            date@,
            seq![tagged("threads"@, threads as nat), tagged("dur"@, duration_secs as nat)],
        ),
{
    let mut out = begin_log_name("selectable_", kind, date);
    push_tagged(&mut out, "threads", threads as u64);
    push_tagged(&mut out, "dur", duration_secs as u64);
    out.append(".csv");
    proof {
        lemma_join_two(tagged("threads"@, threads as nat), tagged("dur"@, duration_secs as nat));
        assert(out@ =~= log_name_text(
            "selectable_"@,
            kind@,
            date@,
            seq![tagged("threads"@, threads as nat), tagged("dur"@, duration_secs as nat)],
        ));
    }
    out
}

/// What a written number reads as, as a 32-bit unsigned number: itself
/// where it fits, and nothing where it does not.
pub open spec fn read_back(value: nat) -> Option<u32> {
    if value <= u32::MAX {
        Some(value as u32)
    } else {
        None
    }
}

/// A tag's own token, last among the pieces, gives the tag its number.
pub proof fn lemma_tagged_last(front: Seq<Seq<char>>, tag: Seq<char>, value: nat)
    ensures
        tagged_value(front.push(tagged(tag, value)), tag) == read_back(value),
{
    let token = tagged(tag, value);
    let n = tag.len() as int;
    assert(front.push(token).last() == token);
    assert(token.take(n) =~= tag);
    assert(token.skip(n) =~= decimal_digits(value));
    lemma_parse_written(value, u32::MAX as nat);
}

/// A token of another tag, last among the pieces, is passed over: tags that
/// begin with different characters do not read each other's tokens.
pub proof fn lemma_tagged_passed(
    front: Seq<Seq<char>>,
    other: Seq<char>,
    value: nat,
    tag: Seq<char>,
)
    requires
        tag.len() > 0,
        other.len() > 0,
        tag[0] != other[0],
    ensures
        tagged_value(front.push(tagged(other, value)), tag) == tagged_value(front, tag),
{
    let token = tagged(other, value);
    let all = front.push(token);
    assert(all.last() == token);
    assert(all.drop_last() =~= front);
    if has_prefix(token, tag) {
        assert(token.take(tag.len() as int)[0] == tag[0]);
        assert(token[0] == other[0]);
    }
}

/// The name made for a selectable run reads back as the kind it was made
/// from, and as the size and the duration that its tokens give, whenever its
/// date reads as a moment.
pub proof fn selectable_name_round_trip(
    kind: Seq<char>,
    day: Seq<char>,
    time: Seq<char>,
    tokens: Seq<Seq<char>>,
)
    requires
        free_of(kind, '_'),
        free_of(day, '_'),
        free_of(time, '_'),
        tokens_free(tokens),
    ensures
        selectable_stress_fields(
            log_name_text("selectable_"@, kind, day + seq!['_'] + time, tokens),
        ) == match timestamp_of(day + seq!['_'] + time) {
            Some(ts) => Some(
                (
                    display_text(ts),
                    day + seq!['_'] + time,
                    kind,
                    size_value(kind, tokens),
                    tagged_value(tokens, "dur"@),
                ),
            ),
            None => None,
        },
{
    lemma_log_name_head("selectable_"@, kind, day, time, tokens);
}

/// The tokens of a run with a size, its thread count and its duration give
/// the size's tag the size, where it fits in 32 bits, and the duration's
/// tag the duration.
pub proof fn lemma_sized_tokens(size_tag: Seq<char>, size: nat, threads: nat, duration: u32)
    requires
        size_tag.len() > 0,
        size_tag[0] != 't',
        size_tag[0] != 'd',
    ensures
        tagged_value(
            seq![
                tagged(size_tag, size),
                tagged("threads"@, threads),
                tagged("dur"@, duration as nat),
            ],
            size_tag,
        ) == read_back(size),
        tagged_value(
            seq![
                tagged(size_tag, size),
                tagged("threads"@, threads),
                tagged("dur"@, duration as nat),
            ],
            "dur"@,
        ) == Some(duration),
{
    reveal_strlit("threads");
    reveal_strlit("dur");
    let s = tagged(size_tag, size);
    let t = tagged("threads"@, threads);
    let d = tagged("dur"@, duration as nat);
    let none = Seq::<Seq<char>>::empty();
    assert(seq![s, t, d] =~= seq![s, t].push(d));
    assert(seq![s, t] =~= seq![s].push(t));
    assert(seq![s] =~= none.push(s));
    lemma_tagged_last(seq![s, t], "dur"@, duration as nat);
    lemma_tagged_passed(seq![s, t], "dur"@, duration as nat, size_tag);
    lemma_tagged_passed(seq![s], "threads"@, threads, size_tag);
    lemma_tagged_last(none, size_tag, size);
}

/// The tokens of a run without a size give the duration's tag the duration.
pub proof fn lemma_plain_tokens(threads: nat, duration: u32)
    ensures
        tagged_value(
            seq![tagged("threads"@, threads), tagged("dur"@, duration as nat)],
            "dur"@,
        ) == Some(duration),
{
    let t = tagged("threads"@, threads);
    let d = tagged("dur"@, duration as nat);
    assert(seq![t, d] =~= seq![t].push(d));
    lemma_tagged_last(seq![t], "dur"@, duration as nat);
}

} // verus!
