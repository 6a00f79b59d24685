//! The SQL conditions that select the songs of a filter.

use vstd::prelude::*;
use crate::error::{Error, joined};
use crate::model::{Filter, FilterTarget, FilterValueRange, FilterValueType, value_type_of};
use crate::text::{
    int_decimal, like_escape, like_escape_needed, like_escaped, like_needs_escape, parse_i32,
    parse_i32_text, push_i32_decimal, push_sql_quoted, sql_quoted, text_is_empty,
};

verus! {

/// Whether the target is stored in a column of the song table.
pub open spec fn has_column(target: FilterTarget) -> bool {
    !(target == FilterTarget::FilterGroup || target == FilterTarget::Tags || target == FilterTarget::Artwork)
}

/// The song-table column of a target.
pub open spec fn column_name(target: FilterTarget) -> Seq<char> {
    match target {
        FilterTarget::Title => "[title]"@,
        FilterTarget::Artist => "[artist]"@,
        FilterTarget::Album => "[album]"@,
        FilterTarget::Genre => "[genre]"@,
        FilterTarget::Albumartist => "[album_artist]"@,
        FilterTarget::Composer => "[composer]"@,
        FilterTarget::TrackNumber => "[track_number]"@,
        FilterTarget::TrackMax => "[track_max]"@,
        FilterTarget::DiscNumber => "[disc_number]"@,
        FilterTarget::DiscMax => "[disc_max]"@,
        FilterTarget::ReleaseDate => "[release_date]"@,
        FilterTarget::Rating => "[rating]"@,
        FilterTarget::Duration => "[duration]"@,
        FilterTarget::Memo => "[memo]"@,
        FilterTarget::MemoManage => "[memo_manage]"@,
        FilterTarget::EntryDate => "[entry_date]"@,
        FilterTarget::OriginalSong => "[original_song]"@,
        FilterTarget::SuggestTarget => "[suggest_target]"@,
        _ => seq![],
    }
}

/// The song-table column of a filter target.
pub fn target_to_clm_name(target: FilterTarget) -> (r: &'static str)
    requires
        has_column(target),
    ensures
        r@ == column_name(target),
{
    match target {
        FilterTarget::Title => "[title]",
        FilterTarget::Artist => "[artist]",
        FilterTarget::Album => "[album]",
        FilterTarget::Genre => "[genre]",
        FilterTarget::Albumartist => "[album_artist]",
        FilterTarget::Composer => "[composer]",
        FilterTarget::TrackNumber => "[track_number]",
        FilterTarget::TrackMax => "[track_max]",
        FilterTarget::DiscNumber => "[disc_number]",
        FilterTarget::DiscMax => "[disc_max]",
        FilterTarget::ReleaseDate => "[release_date]",
        FilterTarget::Rating => "[rating]",
        FilterTarget::Duration => "[duration]",
        FilterTarget::Memo => "[memo]",
        FilterTarget::MemoManage => "[memo_manage]",
        FilterTarget::EntryDate => "[entry_date]",
        FilterTarget::OriginalSong => "[original_song]",
        FilterTarget::SuggestTarget => "[suggest_target]",
        _ => "",
    }
}

/// A condition that never holds.
pub open spec fn false_query() -> Seq<char> {
    "0 = 1"@
}

/// The error for a filter whose range does not fit its target.
pub open spec fn range_error(f: Filter) -> Error {
    Error::InvalidFilterRangeForTarget { filter_id: f.rowid, target: f.target, range: f.range }
}

/// The error for a filter whose value is not an integer.
pub open spec fn int_value_error(f: Filter) -> Error {
    Error::InvalidIntValue { filter_id: f.rowid }
}

/// The builder of the error for a filter whose range does not fit its target.
pub fn invalid_filter_range_for_target(filter: &Filter) -> (e: Error)
    ensures
        e == range_error(*filter),
{
    Error::InvalidFilterRangeForTarget { filter_id: filter.rowid, target: filter.target, range: filter.range }
}

// ---------------------------------------------------------------------------
// String targets
// ---------------------------------------------------------------------------

/// The operator text before the value, the text after it, and whether the
/// value is matched with LIKE, for a string range.
pub open spec fn str_parts(range: FilterValueRange) -> Option<(Seq<char>, Seq<char>, bool)> {
    match range {
        FilterValueRange::StrEqual => Some((" = "@, ""@, false)),
        FilterValueRange::StrNotEqual => Some((" != "@, ""@, false)),
        FilterValueRange::StrContain => Some((" like '%' || "@, " || '%'"@, true)),
        FilterValueRange::StrNotContain => Some((" not like '%' || "@, " || '%'"@, true)),
        FilterValueRange::StrStart => Some((" like "@, " || '%'"@, true)),
        FilterValueRange::StrEnd => Some((" like '%' || "@, ""@, true)),
        _ => None,
    }
}

/// The condition of a string filter.
pub open spec fn where_str(f: Filter) -> Result<Seq<char>, Error> {
    match str_parts(f.range) {
        None => Err(range_error(f)),
        Some((left, right, use_like)) => {
            let escape = use_like && like_needs_escape(f.str_value@);
            let value = if escape { like_escaped(f.str_value@) } else { f.str_value@ };
            let tail = if escape { right + " escape '$'"@ } else { right };
            Ok(column_name(f.target) + left + sql_quoted(value) + tail)
        },
    }
}

/// The SQL condition of a filter on a string column.
pub fn get_query_filter_where_str(filter: &Filter) -> (r: Result<String, Error>)
    requires
        has_column(filter.target) || str_parts(filter.range) is None,
    ensures
        r matches Ok(s) ==> where_str(*filter) == Ok::<Seq<char>, Error>(s@),
        r matches Err(e) ==> where_str(*filter) == Err::<Seq<char>, Error>(e),
{
    let (left, right, use_like): (&str, &str, bool) = match filter.range {
        FilterValueRange::StrEqual => (" = ", "", false),
        FilterValueRange::StrNotEqual => (" != ", "", false),
        FilterValueRange::StrContain => (" like '%' || ", " || '%'", true),
        FilterValueRange::StrNotContain => (" not like '%' || ", " || '%'", true),
        FilterValueRange::StrStart => (" like ", " || '%'", true),
        FilterValueRange::StrEnd => (" like '%' || ", "", true),
        _ => {
            return Err(invalid_filter_range_for_target(filter));
        },
    };
    let mut out = String::new();
    out.append(target_to_clm_name(filter.target));
    out.append(left);
    if use_like && like_escape_needed(filter.str_value.as_str()) {
        let escaped = like_escape(filter.str_value.as_str());
        push_sql_quoted(&mut out, escaped.as_str());
        out.append(right);
        out.append(" escape '$'");
    } else {
        push_sql_quoted(&mut out, filter.str_value.as_str());
        out.append(right);
    }
    proof {
        let sp = str_parts(filter.range);
        assert(sp == Some((left@, right@, use_like)));
        assert(out@ =~= where_str(*filter)->Ok_0);
    }
    Ok(out)
}

// ---------------------------------------------------------------------------
// Integer targets
// ---------------------------------------------------------------------------

/// The two integer values of a range filter, smaller first.
pub open spec fn ordered_ints(f: Filter) -> Result<(i32, i32), Error> {
    match (parse_i32_text(f.str_value@), parse_i32_text(f.str_value2@)) {
        (Some(a), Some(b)) => if a <= b {
            Ok((a, b))
        } else {
            Ok((b, a))
        },
        _ => Err(int_value_error(f)),
    }
}

/// The two integer values of a range filter, smaller first.
pub fn get_ordered_int(filter: &Filter) -> (r: Result<(i32, i32), Error>)
    ensures
        r == ordered_ints(*filter),
{
    let val1 = match parse_i32(filter.str_value.as_str()) {
        Some(v) => v,
        None => {
            return Err(Error::InvalidIntValue { filter_id: filter.rowid });
        },
    };
    let val2 = match parse_i32(filter.str_value2.as_str()) {
        Some(v) => v,
        None => {
            return Err(Error::InvalidIntValue { filter_id: filter.rowid });
        },
    };
    if val1 <= val2 {
        Ok((val1, val2))
    } else {
        Ok((val2, val1))
    }
}

/// The condition of an integer filter.
pub open spec fn where_int(f: Filter) -> Result<Seq<char>, Error> {
    let col = column_name(f.target);
    let v = f.str_value@;
    if v.len() == 0 {
        match f.range {
            FilterValueRange::IntEqual => Ok(col + " is null"@),
            FilterValueRange::IntNotEqual => Ok(col + " is not null"@),
            _ => Ok(false_query()),
        }
    } else {
        match f.range {
            FilterValueRange::IntEqual => Ok(col + " = "@ + v),
            FilterValueRange::IntNotEqual => Ok(col + " <> "@ + v),
            FilterValueRange::IntLargeEqual => Ok(col + " >= "@ + v),
            FilterValueRange::IntSmallEqual => Ok(col + " <= "@ + v),
            FilterValueRange::IntRangeIn => if f.str_value2@.len() == 0 {
                Ok(false_query())
            } else {
                match ordered_ints(f) {
                    Ok((small, large)) => Ok("("@ + col + " >= "@ + int_decimal(small as int) + " and "@ + col
                        + " <= "@ + int_decimal(large as int) + ")"@),
                    Err(e) => Err(e),
                }
            },
            FilterValueRange::IntRangeOut => if f.str_value2@.len() == 0 {
                Ok(false_query())
            } else {
                match ordered_ints(f) {
                    Ok((small, large)) => Ok("("@ + col + " < "@ + int_decimal(small as int) + " or "@ + col
                        + " > "@ + int_decimal(large as int) + ")"@),
                    Err(e) => Err(e),
                }
            },
            _ => Err(range_error(f)),
        }
    }
}

fn concat2(a: &str, b: &str) -> (r: String)
    ensures
        r@ == a@ + b@,
{
    let mut r = String::new();
    r.append(a);
    r.append(b);
    assert(r@ =~= a@ + b@);
    r
}

fn concat3(a: &str, b: &str, c: &str) -> (r: String)
    ensures
        r@ == a@ + b@ + c@,
{
    let mut r = String::new();
    r.append(a);
    r.append(b);
    r.append(c);
    assert(r@ =~= a@ + b@ + c@);
    r
}

fn text_of(a: &str) -> (r: String)
    ensures
        r@ == a@,
{
    let mut r = String::new();
    r.append(a);
    assert(r@ =~= a@);
    r
}

/// The SQL condition of a filter on an integer column.
pub fn get_query_filter_where_int(filter: &Filter) -> (r: Result<String, Error>)
    requires
        has_column(filter.target),
    ensures
        r matches Ok(s) ==> where_int(*filter) == Ok::<Seq<char>, Error>(s@),
        r matches Err(e) ==> where_int(*filter) == Err::<Seq<char>, Error>(e),
{
    let clm_name = target_to_clm_name(filter.target);
    let v = filter.str_value.as_str();
    if text_is_empty(v) {
        return Ok(match filter.range {
            FilterValueRange::IntEqual => concat2(clm_name, " is null"),
            FilterValueRange::IntNotEqual => concat2(clm_name, " is not null"),
            _ => text_of("0 = 1"),
        });
    }
    assert(v@.len() > 0);
    match filter.range {
        FilterValueRange::IntEqual => Ok(concat3(clm_name, " = ", v)),
        FilterValueRange::IntNotEqual => Ok(concat3(clm_name, " <> ", v)),
        FilterValueRange::IntLargeEqual => Ok(concat3(clm_name, " >= ", v)),
        FilterValueRange::IntSmallEqual => Ok(concat3(clm_name, " <= ", v)),
        FilterValueRange::IntRangeIn => {
            if text_is_empty(filter.str_value2.as_str()) {
                Ok(text_of("0 = 1"))
            } else {
                let (small, large) = match get_ordered_int(filter) {
                    Ok(p) => p,
                    Err(e) => {
                        return Err(e);
                    },
                };
                let mut out = String::new();
                out.append("(");
                out.append(clm_name);
                out.append(" >= ");
                push_i32_decimal(&mut out, small);
                out.append(" and ");
                out.append(clm_name);
                out.append(" <= ");
                push_i32_decimal(&mut out, large);
                out.append(")");
                assert(out@ =~= where_int(*filter)->Ok_0);
                Ok(out)
            }
        },
        FilterValueRange::IntRangeOut => {
            if text_is_empty(filter.str_value2.as_str()) {
                Ok(text_of("0 = 1"))
            } else {
                let (small, large) = match get_ordered_int(filter) {
                    Ok(p) => p,
                    Err(e) => {
                        return Err(e);
                    },
                };
                let mut out = String::new();
                out.append("(");
                out.append(clm_name);
                out.append(" < ");
                push_i32_decimal(&mut out, small);
                out.append(" or ");
                out.append(clm_name);
                out.append(" > ");
                push_i32_decimal(&mut out, large);
                out.append(")");
                assert(out@ =~= where_int(*filter)->Ok_0);
                Ok(out)
            }
        },
        _ => Err(invalid_filter_range_for_target(filter)),
    }
}

// ---------------------------------------------------------------------------
// Id, tag, flag, artwork and date targets
// ---------------------------------------------------------------------------

/// The condition of an id filter.
pub open spec fn where_id(f: Filter) -> Result<Seq<char>, Error> {
    match f.range {
        FilterValueRange::IdValid => Ok(column_name(f.target) + " is not null"@),
        FilterValueRange::IdInvalid => Ok(column_name(f.target) + " is null"@),
        _ => Err(range_error(f)),
    }
}

/// The SQL condition of a filter on an id column.
pub fn get_query_filter_where_id(filter: &Filter) -> (r: Result<String, Error>)
    requires
        has_column(filter.target),
    ensures
        r matches Ok(s) ==> where_id(*filter) == Ok::<Seq<char>, Error>(s@),
        r matches Err(e) ==> where_id(*filter) == Err::<Seq<char>, Error>(e),
{
    let clm_name = target_to_clm_name(filter.target);
    match filter.range {
        FilterValueRange::IdValid => Ok(concat2(clm_name, " is not null")),
        FilterValueRange::IdInvalid => Ok(concat2(clm_name, " is null")),
        _ => Err(invalid_filter_range_for_target(filter)),
    }
}

/// The condition that a song has the tag `tag_id`.
pub open spec fn tag_exists_query(tag_id: Seq<char>) -> Seq<char> {
    "exists(select * from [song_tags] AS t where t.[song_id] = song.[rowid] and t.[tag_id] = "@ + tag_id + ")"@
}

/// The condition of a tag filter.
pub open spec fn where_tag(f: Filter) -> Result<Seq<char>, Error> {
    if f.str_value@.len() == 0 && f.range != FilterValueRange::TagNone {
        Ok(false_query())
    } else {
        match f.range {
            FilterValueRange::TagContain => Ok(tag_exists_query(f.str_value@)),
            FilterValueRange::TagNotContain => Ok("not "@ + tag_exists_query(f.str_value@)),
            FilterValueRange::TagNone => Ok(
                "not exists(select * from [song_tags] AS t where t.[song_id] = song.[rowid])"@,
            ),
            _ => Err(range_error(f)),
        }
    }
}

fn get_query_where_by_tag(tag_id: &str) -> (r: String)
    ensures
        r@ == tag_exists_query(tag_id@),
{
    concat3("exists(select * from [song_tags] AS t where t.[song_id] = song.[rowid] and t.[tag_id] = ", tag_id, ")")
}

/// The SQL condition of a tag filter.
pub fn get_query_filter_where_tag(filter: &Filter) -> (r: Result<String, Error>)
    ensures
        r matches Ok(s) ==> where_tag(*filter) == Ok::<Seq<char>, Error>(s@),
        r matches Err(e) ==> where_tag(*filter) == Err::<Seq<char>, Error>(e),
{
    if text_is_empty(filter.str_value.as_str()) && filter.range != FilterValueRange::TagNone {
        return Ok(text_of("0 = 1"));
    }
    match filter.range {
        FilterValueRange::TagContain => Ok(get_query_where_by_tag(filter.str_value.as_str())),
        FilterValueRange::TagNotContain => {
            let inner = get_query_where_by_tag(filter.str_value.as_str());
            Ok(concat2("not ", inner.as_str()))
        },
        FilterValueRange::TagNone => Ok(
            text_of("not exists(select * from [song_tags] AS t where t.[song_id] = song.[rowid])"),
        ),
        _ => Err(invalid_filter_range_for_target(filter)),
    }
}

/// The condition of a flag filter.
pub open spec fn where_bool(f: Filter) -> Result<Seq<char>, Error> {
    match f.range {
        FilterValueRange::BoolTrue => Ok(column_name(f.target) + " <> 0"@),
        FilterValueRange::BoolFalse => Ok(column_name(f.target) + " = 0"@),
        _ => Err(range_error(f)),
    }
}

/// The SQL condition of a filter on a flag column.
pub fn get_query_filter_where_bool(filter: &Filter) -> (r: Result<String, Error>)
    requires
        has_column(filter.target),
    ensures
        r matches Ok(s) ==> where_bool(*filter) == Ok::<Seq<char>, Error>(s@),
        r matches Err(e) ==> where_bool(*filter) == Err::<Seq<char>, Error>(e),
{
    let clm_name = target_to_clm_name(filter.target);
    match filter.range {
        FilterValueRange::BoolTrue => Ok(concat2(clm_name, " <> 0")),
        FilterValueRange::BoolFalse => Ok(concat2(clm_name, " = 0")),
        _ => Err(invalid_filter_range_for_target(filter)),
    }
}

/// The condition that a song has an artwork.
pub open spec fn artwork_exists_query() -> Seq<char> {
    "exists(select * from [song_artwork] as a where a.[song_id] = song.[rowid])"@
}

/// The condition of an artwork filter.
pub open spec fn where_artwork(f: Filter) -> Result<Seq<char>, Error> {
    match f.range {
        FilterValueRange::ArtworkHas => Ok(artwork_exists_query()),
        FilterValueRange::ArtworkNone => Ok("not "@ + artwork_exists_query()),
        _ => Err(range_error(f)),
    }
}

/// The SQL condition of an artwork filter.
pub fn get_query_filter_where_artwork(filter: &Filter) -> (r: Result<String, Error>)
    ensures
        r matches Ok(s) ==> where_artwork(*filter) == Ok::<Seq<char>, Error>(s@),
        r matches Err(e) ==> where_artwork(*filter) == Err::<Seq<char>, Error>(e),
{
    let base_sql = "exists(select * from [song_artwork] as a where a.[song_id] = song.[rowid])";
    match filter.range {
        FilterValueRange::ArtworkHas => Ok(text_of(base_sql)),
        FilterValueRange::ArtworkNone => Ok(concat2("not ", base_sql)),
        _ => Err(invalid_filter_range_for_target(filter)),
    }
}

/// The condition of a date filter.
pub open spec fn where_date(f: Filter) -> Result<Seq<char>, Error> {
    let col = column_name(f.target);
    let v = f.str_value@;
    match f.range {
        FilterValueRange::DateEqual => Ok(if v.len() > 0 { col + " = "@ + sql_quoted(v) } else { col + " is null"@ }),
        FilterValueRange::DateNotEqual => Ok(if v.len() > 0 { col + " <> "@ + sql_quoted(v) } else { col + " is not null"@ }),
        FilterValueRange::DateBefore => Ok(if v.len() > 0 { col + " <= "@ + sql_quoted(v) } else { false_query() }),
        FilterValueRange::DateAfter => Ok(if v.len() > 0 { col + " >= "@ + sql_quoted(v) } else { false_query() }),
        FilterValueRange::DateNone => Ok(col + " is null"@),
        _ => Err(range_error(f)),
    }
}

fn column_op_quoted(clm_name: &str, op: &str, value: &str) -> (r: String)
    ensures
        r@ == clm_name@ + op@ + sql_quoted(value@),
{
    let mut r = String::new();
    r.append(clm_name);
    r.append(op);
    push_sql_quoted(&mut r, value);
    assert(r@ =~= clm_name@ + op@ + sql_quoted(value@));
    r
}

/// The SQL condition of a filter on a date column.
pub fn get_query_filter_where_date(filter: &Filter) -> (r: Result<String, Error>)
    requires
        has_column(filter.target),
    ensures
        r matches Ok(s) ==> where_date(*filter) == Ok::<Seq<char>, Error>(s@),
        r matches Err(e) ==> where_date(*filter) == Err::<Seq<char>, Error>(e),
{
    let clm_name = target_to_clm_name(filter.target);
    let v = filter.str_value.as_str();
    let has_value = !text_is_empty(v);
    match filter.range {
        FilterValueRange::DateEqual => Ok(
            if has_value {
                column_op_quoted(clm_name, " = ", v)
            } else {
                concat2(clm_name, " is null")
            },
        ),
        FilterValueRange::DateNotEqual => Ok(
            if has_value {
                column_op_quoted(clm_name, " <> ", v)
            } else {
                concat2(clm_name, " is not null")
            },
        ),
        FilterValueRange::DateBefore => Ok(
            if has_value {
                column_op_quoted(clm_name, " <= ", v)
            } else {
                text_of("0 = 1")
            },
        ),
        FilterValueRange::DateAfter => Ok(
            if has_value {
                column_op_quoted(clm_name, " >= ", v)
            } else {
                text_of("0 = 1")
            },
        ),
        FilterValueRange::DateNone => Ok(concat2(clm_name, " is null")),
        _ => Err(invalid_filter_range_for_target(filter)),
    }
}

// ---------------------------------------------------------------------------
// Groups and the whole filter
// ---------------------------------------------------------------------------

/// The word that joins the conditions of a group.
pub open spec fn group_operator(range: FilterValueRange) -> Seq<char> {
    if range == FilterValueRange::GroupOr {
        " or "@
    } else {
        " and "@
    }
}

/// The conditions among `parts` that are not empty (an empty condition
/// means "no condition"), in order.
pub open spec fn non_empty_parts(parts: Seq<Seq<char>>) -> Seq<Seq<char>>
    decreases parts.len(),
{
    if parts.len() == 0 {
        seq![]
    } else if parts.last().len() == 0 {
        non_empty_parts(parts.drop_last())
    } else {
        non_empty_parts(parts.drop_last()).push(parts.last())
    }
}

/// The condition of a group, from the conditions of its children: the
/// children's conditions that are not empty, joined by the group's operator
/// and put in parentheses; empty (no condition) when none is left.
pub open spec fn group_clause(range: FilterValueRange, parts: Seq<Seq<char>>) -> Seq<char> {
    let combined = joined(non_empty_parts(parts), group_operator(range));
    if combined.len() == 0 {
        combined
    } else {
        "("@ + combined + ")"@
    }
}

/// The conditions of a sequence of filters, or the error of the first that has one.
pub open spec fn child_clauses(cs: Seq<Filter>) -> Result<Seq<Seq<char>>, Error>
    decreases cs,
{
    if cs.len() == 0 {
        Ok(seq![])
    } else {
        match child_clauses(cs.drop_last()) {
            Err(e) => Err(e),
            Ok(parts) => match where_clause(cs.last()) {
                Err(e) => Err(e),
                Ok(p) => Ok(parts.push(p)),
            },
        }
    }
}

/// The SQL condition that selects the songs of a filter (empty: no condition).
pub open spec fn where_clause(f: Filter) -> Result<Seq<char>, Error>
    decreases f,
{
    match value_type_of(f.target) {
        FilterValueType::FilterGroup => match child_clauses(f.children@) {
            Err(e) => Err(e),
            Ok(parts) => Ok(group_clause(f.range, parts)),
        },
        FilterValueType::String => where_str(f),
        FilterValueType::Int => where_int(f),
        FilterValueType::Id => where_id(f),
        FilterValueType::Tags => where_tag(f),
        FilterValueType::Bool => where_bool(f),
        FilterValueType::Artwork => where_artwork(f),
        FilterValueType::Date => where_date(f),
    }
}

proof fn lemma_child_clauses_error_stays(cs: Seq<Filter>, k: int, e: Error)
    requires
        0 <= k <= cs.len(),
        child_clauses(cs.take(k)) == Err::<Seq<Seq<char>>, Error>(e),
    ensures
        child_clauses(cs) == Err::<Seq<Seq<char>>, Error>(e),
    decreases cs.len() - k,
{
    if k < cs.len() {
        assert(cs.take(k + 1).drop_last() =~= cs.take(k));
        lemma_child_clauses_error_stays(cs, k + 1, e);
    } else {
        assert(cs.take(k) =~= cs);
    }
}

/// The SQL condition of a group filter.
pub fn get_query_filter_where_group(filter: &Filter) -> (r: Result<String, Error>)
    requires
        value_type_of(filter.target) == FilterValueType::FilterGroup,
    ensures
        r matches Ok(s) ==> where_clause(*filter) == Ok::<Seq<char>, Error>(s@),
        r matches Err(e) ==> where_clause(*filter) == Err::<Seq<char>, Error>(e),
    decreases filter, 0int,
{
    let ope = if filter.range == FilterValueRange::GroupOr {
        " or "
    } else {
        " and "
    };
    assert(ope@ == group_operator(filter.range));
    let ghost cs = filter.children@;
    let ghost mut parts: Seq<Seq<char>> = seq![];
    let mut combined = String::new();
    let mut any = false;
    let mut i: usize = 0;
    assert(cs.take(0) =~= Seq::<Filter>::empty());
    while i < filter.children.len()
        invariant
            i <= cs.len(),
            cs == filter.children@,
            value_type_of(filter.target) == FilterValueType::FilterGroup,
            ope@ == group_operator(filter.range),
            child_clauses(cs.take(i as int)) == Ok::<Seq<Seq<char>>, Error>(parts),
            combined@ == joined(non_empty_parts(parts), ope@),
            any == (non_empty_parts(parts).len() > 0),
            parts.len() == i,
        decreases cs.len() - i,
    {
        proof {
            assert(cs.take(i + 1).drop_last() =~= cs.take(i as int));
            assert(cs.take(i + 1).last() == cs[i as int]);
        }
        let part = match get_query_filter_where(&filter.children[i]) {
            Ok(p) => p,
            Err(e) => {
                proof {
                    lemma_child_clauses_error_stays(cs, i + 1, e);
                    assert(child_clauses(filter.children@) == Err::<Seq<Seq<char>>, Error>(e));
                    assert(where_clause(*filter) == Err::<Seq<char>, Error>(e));
                }
                return Err(e);
            },
        };
        let ghost before = combined@;
        let ghost kept = non_empty_parts(parts);
        if part.unicode_len() > 0 {
            if any {
                combined.append(ope);
            }
            combined.append(part.as_str());
            any = true;
        }
        proof {
            let np = parts.push(part@);
            assert(np.drop_last() =~= parts);
            if part@.len() > 0 {
                assert(non_empty_parts(np) == kept.push(part@));
                assert(kept.push(part@).drop_last() =~= kept);
                if kept.len() == 0 {
                    assert(before =~= Seq::<char>::empty());
                    assert(combined@ =~= part@);
                } else {
                    assert(combined@ =~= before + ope@ + part@);
                }
            } else {
                assert(non_empty_parts(np) == kept);
            }
            parts = np;
        }
        i = i + 1;
    }
    assert(cs.take(cs.len() as int) =~= cs);
    if combined.unicode_len() == 0 {
        return Ok(combined);
    }
    let r = concat3("(", combined.as_str(), ")");
    Ok(r)
}

/// The SQL condition that selects the songs of a filter (empty: no condition).
pub fn get_query_filter_where(filter: &Filter) -> (r: Result<String, Error>)
    ensures
        r matches Ok(s) ==> where_clause(*filter) == Ok::<Seq<char>, Error>(s@),
        r matches Err(e) ==> where_clause(*filter) == Err::<Seq<char>, Error>(e),
    decreases filter, 1int,
{
    match filter.target.value_type() {
        FilterValueType::FilterGroup => get_query_filter_where_group(filter),
        FilterValueType::String => get_query_filter_where_str(filter),
        FilterValueType::Int => get_query_filter_where_int(filter),
        FilterValueType::Id => get_query_filter_where_id(filter),
        FilterValueType::Tags => get_query_filter_where_tag(filter),
        FilterValueType::Bool => get_query_filter_where_bool(filter),
        FilterValueType::Artwork => get_query_filter_where_artwork(filter),
        FilterValueType::Date => get_query_filter_where_date(filter),
    }
}

/// The query for the ids of the songs that a filter selects.
pub open spec fn song_id_query_text(where_text: Seq<char>) -> Seq<char> {
    if where_text.len() == 0 {
        "select [song].[rowid] from [song]"@
    } else {
        "select [song].[rowid] from [song]"@ + " where "@ + where_text
    }
}

/// Lists the songs that a filter selects.
pub struct SongListerFilterImpl {}

impl SongListerFilterImpl {
    /// The operations, which hold no state.
    pub fn new() -> (r: Self) {
        SongListerFilterImpl {}
    }

    /// The query for the ids of the songs that a filter selects.
    pub fn list_song_id_query(&self, filter: &Filter) -> (r: Result<String, Error>)
        ensures
            r matches Ok(s) ==> (where_clause(*filter) matches Ok(w) && s@ == song_id_query_text(w)),
            r matches Err(e) ==> where_clause(*filter) == Err::<Seq<char>, Error>(e),
    {
        let query_where = match get_query_filter_where(filter) {
            Ok(w) => w,
            Err(e) => {
                return Err(e);
            },
        };
        let mut query_base = String::new();
        query_base.append("select [song].[rowid] from [song]");
        if query_where.unicode_len() != 0 {
            query_base.append(" where ");
            query_base.append(query_where.as_str());
        }
        assert(query_base@ =~= song_id_query_text(query_where@));
        Ok(query_base)
    }
}

// ---------------------------------------------------------------------------
// What the target columns are
// ---------------------------------------------------------------------------

/// The song-table column that holds a target's value: the one named after
/// the target.
pub open spec fn song_column(target: FilterTarget) -> Seq<char> {
    match target {
        FilterTarget::Title => "title"@,
        FilterTarget::Artist => "artist"@,
        FilterTarget::Album => "album"@,
        FilterTarget::Genre => "genre"@,
        FilterTarget::Albumartist => "album_artist"@,
        FilterTarget::Composer => "composer"@,
        FilterTarget::TrackNumber => "track_number"@,
        FilterTarget::TrackMax => "track_max"@,
        FilterTarget::DiscNumber => "disc_number"@,
        FilterTarget::DiscMax => "disc_max"@,
        FilterTarget::ReleaseDate => "release_date"@,
        FilterTarget::Rating => "rating"@,
        FilterTarget::Duration => "duration"@,
        FilterTarget::Memo => "memo"@,
        FilterTarget::MemoManage => "memo_manage"@,
        FilterTarget::EntryDate => "entry_date"@,
        FilterTarget::OriginalSong => "original_song"@,
        FilterTarget::SuggestTarget => "suggest_target"@,
        _ => seq![],
    }
}

/// Length and first two letters of a target's column name.
spec fn column_signature(target: FilterTarget) -> (int, char, char) {
    match target {
        FilterTarget::Title => (5, 't', 'i'),
        FilterTarget::Artist => (6, 'a', 'r'),
        FilterTarget::Album => (5, 'a', 'l'),
        FilterTarget::Genre => (5, 'g', 'e'),
        FilterTarget::Albumartist => (12, 'a', 'l'),
        FilterTarget::Composer => (8, 'c', 'o'),
        FilterTarget::TrackNumber => (12, 't', 'r'),
        FilterTarget::TrackMax => (9, 't', 'r'),
        FilterTarget::DiscNumber => (11, 'd', 'i'),
        FilterTarget::DiscMax => (8, 'd', 'i'),
        FilterTarget::ReleaseDate => (12, 'r', 'e'),
        FilterTarget::Rating => (6, 'r', 'a'),
        FilterTarget::Duration => (8, 'd', 'u'),
        FilterTarget::Memo => (4, 'm', 'e'),
        FilterTarget::MemoManage => (11, 'm', 'e'),
        FilterTarget::EntryDate => (10, 'e', 'n'),
        FilterTarget::OriginalSong => (13, 'o', 'r'),
        FilterTarget::SuggestTarget => (14, 's', 'u'),
        _ => (0, ' ', ' '),
    }
}

proof fn lemma_column_signature(target: FilterTarget)
    requires
        has_column(target),
    ensures
        column_name(target).len() == column_signature(target).0 + 2,
        column_name(target)[1] == column_signature(target).1,
        column_name(target)[2] == column_signature(target).2,
{
    reveal_strlit("[title]");
    reveal_strlit("[artist]");
    reveal_strlit("[album]");
    reveal_strlit("[genre]");
    reveal_strlit("[album_artist]");
    reveal_strlit("[composer]");
    reveal_strlit("[track_number]");
    reveal_strlit("[track_max]");
    reveal_strlit("[disc_number]");
    reveal_strlit("[disc_max]");
    reveal_strlit("[release_date]");
    reveal_strlit("[rating]");
    reveal_strlit("[duration]");
    reveal_strlit("[memo]");
    reveal_strlit("[memo_manage]");
    reveal_strlit("[entry_date]");
    reveal_strlit("[original_song]");
    reveal_strlit("[suggest_target]");
    match target {
        FilterTarget::Title => assert(column_name(target).len() == 7),
        FilterTarget::Artist => assert(column_name(target).len() == 8),
        FilterTarget::Album => assert(column_name(target).len() == 7),
        FilterTarget::Genre => assert(column_name(target).len() == 7),
        FilterTarget::Albumartist => assert(column_name(target).len() == 14),
        FilterTarget::Composer => assert(column_name(target).len() == 10),
        FilterTarget::TrackNumber => assert(column_name(target).len() == 14),
        FilterTarget::TrackMax => assert(column_name(target).len() == 11),
        FilterTarget::DiscNumber => assert(column_name(target).len() == 13),
        FilterTarget::DiscMax => assert(column_name(target).len() == 10),
        FilterTarget::ReleaseDate => assert(column_name(target).len() == 14),
        FilterTarget::Rating => assert(column_name(target).len() == 8),
        FilterTarget::Duration => assert(column_name(target).len() == 10),
        FilterTarget::Memo => assert(column_name(target).len() == 6),
        FilterTarget::MemoManage => assert(column_name(target).len() == 13),
        FilterTarget::EntryDate => assert(column_name(target).len() == 12),
        FilterTarget::OriginalSong => assert(column_name(target).len() == 15),
        FilterTarget::SuggestTarget => assert(column_name(target).len() == 16),
        _ => {},
    }
}

/// Each target with a column is matched on the song-table column named after
/// it, written in brackets; the others have none.
pub proof fn law_target_columns(target: FilterTarget)
    ensures
        has_column(target) ==> column_name(target) == "["@ + song_column(target) + "]"@,
        !has_column(target) ==> column_name(target).len() == 0,
{
    reveal_strlit("[");
    reveal_strlit("]");
    reveal_strlit("[title]");
    reveal_strlit("title");
    reveal_strlit("[artist]");
    reveal_strlit("artist");
    reveal_strlit("[album]");
    reveal_strlit("album");
    reveal_strlit("[genre]");
    reveal_strlit("genre");
    reveal_strlit("[album_artist]");
    reveal_strlit("album_artist");
    reveal_strlit("[composer]");
    reveal_strlit("composer");
    reveal_strlit("[track_number]");
    reveal_strlit("track_number");
    reveal_strlit("[track_max]");
    reveal_strlit("track_max");
    reveal_strlit("[disc_number]");
    reveal_strlit("disc_number");
    reveal_strlit("[disc_max]");
    reveal_strlit("disc_max");
    reveal_strlit("[release_date]");
    reveal_strlit("release_date");
    reveal_strlit("[rating]");
    reveal_strlit("rating");
    reveal_strlit("[duration]");
    reveal_strlit("duration");
    reveal_strlit("[memo]");
    reveal_strlit("memo");
    reveal_strlit("[memo_manage]");
    reveal_strlit("memo_manage");
    reveal_strlit("[entry_date]");
    reveal_strlit("entry_date");
    reveal_strlit("[original_song]");
    reveal_strlit("original_song");
    reveal_strlit("[suggest_target]");
    reveal_strlit("suggest_target");
    assert(has_column(target) ==> column_name(target) =~= "["@ + song_column(target) + "]"@);
}

/// Distinct targets are matched on distinct columns.
pub proof fn law_target_columns_distinct(a: FilterTarget, b: FilterTarget)
    requires
        has_column(a),
        has_column(b),
        column_name(a) == column_name(b),
    ensures
        a == b,
{
    lemma_column_signature(a);
    lemma_column_signature(b);
}

} // verus!
