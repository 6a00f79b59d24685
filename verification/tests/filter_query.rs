use data_db::error::Error;
use data_db::model::{Filter, FilterTarget, FilterValueRange, FilterValueType};
use data_db::song_lister::{
    get_ordered_int, get_query_filter_where, get_query_filter_where_date, get_query_filter_where_int,
    get_query_filter_where_str, target_to_clm_name, SongListerFilterImpl,
};

fn filter(target: FilterTarget, range: FilterValueRange, v1: &str, v2: &str) -> Filter {
    Filter {
        rowid: 11,
        target,
        str_value: v1.to_owned(),
        str_value2: v2.to_owned(),
        range,
        children: vec![],
    }
}

fn group(range: FilterValueRange, children: Vec<Filter>) -> Filter {
    Filter {
        rowid: 1,
        target: FilterTarget::FilterGroup,
        str_value: String::new(),
        str_value2: String::new(),
        range,
        children,
    }
}

fn query(f: &Filter) -> String {
    match get_query_filter_where(f) {
        Ok(s) => s,
        Err(_) => panic!("the filter has a condition"),
    }
}

fn is_range_error(r: Result<String, Error>, filter_id: i32, t: FilterTarget, rg: FilterValueRange) -> bool {
    matches!(r, Err(Error::InvalidFilterRangeForTarget { filter_id: id, target, range }) if id == filter_id && target == t && range == rg)
}

#[test]
fn column_names() {
    assert_eq!(target_to_clm_name(FilterTarget::Albumartist), "[album_artist]");
    assert_eq!(target_to_clm_name(FilterTarget::OriginalSong), "[original_song]");
    assert_eq!(FilterTarget::Rating.value_type(), FilterValueType::Int);
    assert_eq!(FilterTarget::EntryDate.value_type(), FilterValueType::Date);
}

#[test]
fn string_conditions() {
    let t = FilterTarget::Artist;
    assert_eq!(query(&filter(t, FilterValueRange::StrEqual, "test", "")), "[artist] = 'test'");
    assert_eq!(query(&filter(t, FilterValueRange::StrNotEqual, "it's", "")), "[artist] != 'it''s'");
    assert_eq!(query(&filter(t, FilterValueRange::StrContain, "test", "")), "[artist] like '%' || 'test' || '%'");
    assert_eq!(
        query(&filter(t, FilterValueRange::StrNotContain, "te%st", "")),
        "[artist] not like '%' || 'te$%st' || '%' escape '$'"
    );
    assert_eq!(query(&filter(t, FilterValueRange::StrStart, "a_b", "")), "[artist] like 'a$_b' || '%' escape '$'");
    assert_eq!(query(&filter(t, FilterValueRange::StrEnd, "te%st", "")), "[artist] like '%' || 'te$%st' escape '$'");
    assert_eq!(query(&filter(t, FilterValueRange::StrEqual, "te%st", "")), "[artist] = 'te%st'");
    let bad = filter(t, FilterValueRange::IntEqual, "1", "");
    assert!(is_range_error(get_query_filter_where_str(&bad), 11, t, FilterValueRange::IntEqual));
}

#[test]
fn int_conditions() {
    let t = FilterTarget::Rating;
    assert_eq!(query(&filter(t, FilterValueRange::IntEqual, "25", "")), "[rating] = 25");
    assert_eq!(query(&filter(t, FilterValueRange::IntNotEqual, "25", "")), "[rating] <> 25");
    assert_eq!(query(&filter(t, FilterValueRange::IntLargeEqual, "10", "")), "[rating] >= 10");
    assert_eq!(query(&filter(t, FilterValueRange::IntSmallEqual, "10", "")), "[rating] <= 10");
    assert_eq!(query(&filter(t, FilterValueRange::IntEqual, "", "")), "[rating] is null");
    assert_eq!(query(&filter(t, FilterValueRange::IntNotEqual, "", "")), "[rating] is not null");
    assert_eq!(query(&filter(t, FilterValueRange::IntLargeEqual, "", "")), "0 = 1");
    assert_eq!(query(&filter(t, FilterValueRange::IntRangeIn, "25", "10")), "([rating] >= 10 and [rating] <= 25)");
    assert_eq!(query(&filter(t, FilterValueRange::IntRangeOut, "10", "25")), "([rating] < 10 or [rating] > 25)");
    assert_eq!(query(&filter(t, FilterValueRange::IntRangeIn, "10", "")), "0 = 1");
    let bad_value = filter(t, FilterValueRange::IntRangeIn, "x1", "3");
    assert!(matches!(get_query_filter_where_int(&bad_value), Err(Error::InvalidIntValue { filter_id: 11 })));
    let bad_range = filter(t, FilterValueRange::BoolTrue, "1", "");
    assert!(is_range_error(get_query_filter_where_int(&bad_range), 11, t, FilterValueRange::BoolTrue));
}

#[test]
fn ordered_ints() {
    let f = filter(FilterTarget::Duration, FilterValueRange::IntRangeIn, "-5", "+3");
    assert!(matches!(get_ordered_int(&f), Ok((-5, 3))));
    let g = filter(FilterTarget::Duration, FilterValueRange::IntRangeIn, "2147483647", "-2147483648");
    assert!(matches!(get_ordered_int(&g), Ok((-2147483648, 2147483647))));
    let h = filter(FilterTarget::Duration, FilterValueRange::IntRangeIn, "2147483648", "0");
    assert!(matches!(get_ordered_int(&h), Err(Error::InvalidIntValue { filter_id: 11 })));
}

#[test]
fn tag_bool_artwork_conditions() {
    assert_eq!(
        query(&filter(FilterTarget::Tags, FilterValueRange::TagContain, "83", "")),
        "exists(select * from [song_tags] AS t where t.[song_id] = song.[rowid] and t.[tag_id] = 83)"
    );
    assert_eq!(
        query(&filter(FilterTarget::Tags, FilterValueRange::TagNotContain, "83", "")),
        "not exists(select * from [song_tags] AS t where t.[song_id] = song.[rowid] and t.[tag_id] = 83)"
    );
    assert_eq!(
        query(&filter(FilterTarget::Tags, FilterValueRange::TagNone, "", "")),
        "not exists(select * from [song_tags] AS t where t.[song_id] = song.[rowid])"
    );
    assert_eq!(query(&filter(FilterTarget::Tags, FilterValueRange::TagContain, "", "")), "0 = 1");
    assert_eq!(query(&filter(FilterTarget::SuggestTarget, FilterValueRange::BoolTrue, "", "")), "[suggest_target] <> 0");
    assert_eq!(query(&filter(FilterTarget::SuggestTarget, FilterValueRange::BoolFalse, "", "")), "[suggest_target] = 0");
    assert_eq!(
        query(&filter(FilterTarget::Artwork, FilterValueRange::ArtworkHas, "", "")),
        "exists(select * from [song_artwork] as a where a.[song_id] = song.[rowid])"
    );
    assert_eq!(
        query(&filter(FilterTarget::Artwork, FilterValueRange::ArtworkNone, "", "")),
        "not exists(select * from [song_artwork] as a where a.[song_id] = song.[rowid])"
    );
}

#[test]
fn date_conditions() {
    let t = FilterTarget::ReleaseDate;
    assert_eq!(query(&filter(t, FilterValueRange::DateEqual, "2021-01-26", "")), "[release_date] = '2021-01-26'");
    assert_eq!(query(&filter(t, FilterValueRange::DateNotEqual, "1998-12-10", "")), "[release_date] <> '1998-12-10'");
    assert_eq!(query(&filter(t, FilterValueRange::DateBefore, "2012-11-10", "")), "[release_date] <= '2012-11-10'");
    assert_eq!(query(&filter(t, FilterValueRange::DateAfter, "2012-11-10", "")), "[release_date] >= '2012-11-10'");
    assert_eq!(query(&filter(t, FilterValueRange::DateEqual, "", "")), "[release_date] is null");
    assert_eq!(query(&filter(t, FilterValueRange::DateNotEqual, "", "")), "[release_date] is not null");
    assert_eq!(query(&filter(t, FilterValueRange::DateBefore, "", "")), "0 = 1");
    assert_eq!(query(&filter(t, FilterValueRange::DateNone, "x", "")), "[release_date] is null");
    let bad = filter(t, FilterValueRange::StrEqual, "", "");
    assert!(is_range_error(get_query_filter_where_date(&bad), 11, t, FilterValueRange::StrEqual));
}

#[test]
fn group_conditions() {
    let and = group(
        FilterValueRange::GroupAnd,
        vec![
            filter(FilterTarget::Rating, FilterValueRange::IntEqual, "45", ""),
            group(
                FilterValueRange::GroupOr,
                vec![
                    filter(FilterTarget::Artist, FilterValueRange::StrEqual, "taro", ""),
                    filter(FilterTarget::Artist, FilterValueRange::StrEqual, "jiro", ""),
                ],
            ),
        ],
    );
    assert_eq!(query(&and), "([rating] = 45 and ([artist] = 'taro' or [artist] = 'jiro'))");
    assert_eq!(query(&group(FilterValueRange::GroupOr, vec![])), "");
    let bad = group(
        FilterValueRange::GroupAnd,
        vec![
            filter(FilterTarget::Rating, FilterValueRange::IntEqual, "1", ""),
            filter(FilterTarget::Title, FilterValueRange::BoolTrue, "", ""),
        ],
    );
    assert!(is_range_error(get_query_filter_where(&bad), 11, FilterTarget::Title, FilterValueRange::BoolTrue));
}

#[test]
fn song_id_query() {
    let lister = SongListerFilterImpl::new();
    match lister.list_song_id_query(&filter(FilterTarget::Rating, FilterValueRange::IntEqual, "3", "")) {
        Ok(q) => assert_eq!(q, "select [song].[rowid] from [song] where [rating] = 3"),
        Err(_) => panic!("the filter has a condition"),
    }
    match lister.list_song_id_query(&group(FilterValueRange::GroupAnd, vec![])) {
        Ok(q) => assert_eq!(q, "select [song].[rowid] from [song]"),
        Err(_) => panic!("an empty group selects every song"),
    }
}

#[test]
fn group_of_empty_groups_is_no_condition() {
    let g = |id: i32| Filter { rowid: id, ..group(FilterValueRange::GroupAnd, vec![]) };
    let outer = group(FilterValueRange::GroupAnd, vec![g(2), g(3)]);
    assert_eq!(query(&outer), "");
    let mixed = group(
        FilterValueRange::GroupOr,
        vec![g(2), filter(FilterTarget::Rating, FilterValueRange::IntEqual, "1", ""), g(3)],
    );
    assert_eq!(query(&mixed), "([rating] = 1)");
}

#[test]
fn string_builder_checks_the_range_first() {
    let bad = filter(FilterTarget::Tags, FilterValueRange::IntEqual, "x", "");
    assert!(is_range_error(get_query_filter_where_str(&bad), 11, FilterTarget::Tags, FilterValueRange::IntEqual));
}
