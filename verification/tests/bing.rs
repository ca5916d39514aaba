use xpic::bing::{find_id, read_answer, Image, ImageDetail, ImageError, ImageInfo, QueryError};

fn info(day: &str, url: &str, caption: &str) -> ImageInfo {
    ImageInfo { start_date: day.to_string(), url: url.to_string(), copyright: caption.to_string() }
}

fn image(url: &str, day: &str) -> Image {
    Image {
        url: url.to_string(),
        date: day.to_string(),
        title: String::new(),
        copyright: String::new(),
    }
}

const FIREFALL: &str =
    "/th?id=OHR.YosemiteFirefall_ROW8895162487_1920x1080.jpg&rf=LaDigue_1920x1080.jpg&pid=hp";

#[test]
fn record_becomes_image() {
    let i = Image::try_from(info(
        "20240215",
        FIREFALL,
        "Firefall at Horsetail Fall, Yosemite (© Jeff Lewis/Tandem Stills + Motion)",
    ))
    .unwrap();
    assert_eq!(
        i.url,
        "https://www.bing.com/th?id=OHR.YosemiteFirefall_ROW8895162487_1920x1080.jpg&rf=LaDigue_1920x1080.jpg&pid=hp"
    );
    assert_eq!(i.date, "20240215");
    assert_eq!(i.title, "Firefall at Horsetail Fall, Yosemite");
    assert_eq!(i.copyright, "© Jeff Lewis/Tandem Stills + Motion");
}

#[test]
fn caption_is_split_at_the_first_bracket() {
    let i = Image::try_from(info("1", "/a", "  A (b) c (d)")).unwrap();
    assert_eq!(i.title, "  A");
    assert_eq!(i.copyright, "b");
    let i = Image::try_from(info("1", "/a", "()")).unwrap();
    assert_eq!(i.title, "");
    assert_eq!(i.copyright, "");
    let i = Image::try_from(info("1", "/a", "first\nsecond line \t (c)")).unwrap();
    assert_eq!(i.title, "second line");
    assert_eq!(i.copyright, "c");
}

#[test]
fn caption_without_brackets_is_all_title() {
    for caption in ["No brackets here", "", "open (only", "Half Dome", "a ) b ( c"] {
        let i = Image::try_from(info("20240101", "/a", caption)).unwrap();
        assert_eq!(i.title, caption);
        assert_eq!(i.copyright, "");
        assert_eq!(i.url, "https://www.bing.com/a");
        assert_eq!(i.date, "20240101");
    }
}

#[test]
fn address_that_cannot_be_resolved_is_no_image() {
    assert_eq!(Image::try_from(info("1", "http://[::1", "T (c)")).err(), Some(ImageError::Url));
    assert_eq!(Image::try_from(info("1", "https://:99999/", "T (c)")).err(), Some(ImageError::Url));
    assert_eq!(Image::try_from(info("1", "http://[::1", "no brackets")).err(), Some(ImageError::Url));
    assert_eq!(Image::try_from(info("1", "http://[::1", "")).err(), Some(ImageError::Url));
}

#[test]
fn address_is_resolved_against_the_root() {
    let cases = [
        ("/th?id=x", "https://www.bing.com/th?id=x"),
        ("th?id=x", "https://www.bing.com/th?id=x"),
        ("", "https://www.bing.com/"),
        ("//example.com/a b", "https://example.com/a%20b"),
        ("http://example.com/x/../y", "http://example.com/y"),
    ];
    for (relative, absolute) in cases {
        assert_eq!(Image::try_from(info("1", relative, "T (c)")).unwrap().url, absolute);
    }
}

#[test]
fn image_is_assembled_from_groups_and_address() {
    let groups = |g: &[Option<&str>]| Some(g.iter().map(|s| s.map(str::to_string)).collect::<Vec<_>>());
    let url = || Some("https://x/".to_string());
    let made = Image::assemble(
        info("20240101", "/r", "whole"),
        groups(&[Some("T (c)"), Some("T"), Some("c")]),
        url(),
    )
    .unwrap();
    assert_eq!(
        (made.url.as_str(), made.date.as_str(), made.title.as_str(), made.copyright.as_str()),
        ("https://x/", "20240101", "T", "c")
    );
    let all_title = |groups: Option<Vec<Option<String>>>| {
        let made = Image::assemble(info("1", "/r", "whole caption"), groups, url()).unwrap();
        assert_eq!(
            (made.url.as_str(), made.date.as_str(), made.title.as_str(), made.copyright.as_str()),
            ("https://x/", "1", "whole caption", "")
        );
    };
    all_title(None);
    all_title(groups(&[]));
    all_title(groups(&[Some("a"), Some("b")]));
    all_title(groups(&[Some("a"), None, Some("b")]));
    all_title(groups(&[Some("a"), Some("b"), None]));
    let unresolved = Some(ImageError::Url);
    assert_eq!(Image::assemble(info("1", "/r", "c"), None, None).err(), unresolved);
    assert_eq!(Image::assemble(info("1", "/r", "c"), groups(&[]), None).err(), unresolved);
    assert_eq!(
        Image::assemble(info("1", "/r", "c"), groups(&[Some("a"), Some("b"), Some("c")]), None).err(),
        unresolved
    );
    let more = Image::assemble(
        info("1", "/r", "c"),
        groups(&[Some("a"), Some("b"), Some("c"), Some("d")]),
        url(),
    )
    .unwrap();
    assert_eq!((more.title.as_str(), more.copyright.as_str()), ("b", "c"));
}

#[test]
fn id_is_the_first_pair_called_id() {
    let i = image("https://www.bing.com/th?id=OHR.A_ROW1_UHD.jpg&rf=x&id=second", "1");
    assert_eq!(i.id().as_deref(), Some("OHR.A_ROW1_UHD.jpg"));
    let i = image("https://www.bing.com/th?rf=x&id=a%20b+c", "1");
    assert_eq!(i.id().as_deref(), Some("a b c"));
    assert_eq!(image("https://www.bing.com/th?ID=x&idx=1", "1").id(), None);
    assert_eq!(image("https://www.bing.com/th", "1").id(), None);
    assert_eq!(image("https://www.bing.com/th?id", "1").id().as_deref(), Some(""));
    assert_eq!(image("not an address", "1").id(), None);
    assert_eq!(image("id=x", "1").id(), None);
}

#[test]
fn id_is_found_among_pairs() {
    let pairs = |list: &[(&str, &str)]| {
        list.iter().map(|(k, v)| (k.to_string(), v.to_string())).collect::<Vec<_>>()
    };
    assert_eq!(find_id(&pairs(&[])), None);
    assert_eq!(find_id(&pairs(&[("a", "1"), ("idx", "2")])), None);
    assert_eq!(find_id(&pairs(&[("a", "1"), ("id", "2"), ("id", "3")])).as_deref(), Some("2"));
    assert_eq!(find_id(&pairs(&[("id", "")])).as_deref(), Some(""));
}

#[test]
fn detail_is_read_from_the_address() {
    let i = Image::try_from(info("20240215", FIREFALL, "T (c)")).unwrap();
    assert_eq!(
        i.detail(),
        Ok(ImageDetail {
            name: "YosemiteFirefall".to_string(),
            market: "ROW".to_string(),
            number: 8895162487,
            uhd: false,
            width: 1920,
            height: 1080,
            extension: "jpg".to_string(),
        })
    );
    assert_eq!(image("https://www.bing.com/th", "1").detail(), Ok(ImageDetail::default()));
    assert_eq!(image("https://www.bing.com/th?id=x", "1").detail(), Ok(ImageDetail::default()));
    assert_eq!(
        image("https://www.bing.com/th?id=OHR.a_ROW99999999999999999999_UHD.jpg", "1").detail(),
        Ok(ImageDetail::default())
    );
}

#[test]
fn file_is_named_by_day_name_and_extension() {
    let i = Image::try_from(info("20240215", FIREFALL, "T (c)")).unwrap();
    assert_eq!(i.filename().as_deref(), Some("20240215_YosemiteFirefall.jpg"));
    let i = image("https://www.bing.com/th?id=OHR.HalfDomeYosemite_EN-US4890007214_UHD.jpg", "20240216");
    assert_eq!(i.filename().as_deref(), Some("20240216_HalfDomeYosemite.jpg"));
    let i = image("https://www.bing.com/th?id=OHR.Z%C3%BCrich_DE-DE123_UHD.jpg", "20240218");
    assert_eq!(i.filename().as_deref(), Some("20240218_Zürich.jpg"));
    let i = image("https://www.bing.com/th?id=OHR.a_ROW1_UHD.p", "");
    assert_eq!(i.filename().as_deref(), Some("_a.p"));
}

#[test]
fn image_without_readable_token_has_no_file_name() {
    assert_eq!(image("https://www.bing.com/th?id=unknown", "20240217").filename(), None);
    assert_eq!(image("https://www.bing.com/th", "20240217").filename(), None);
    assert_eq!(image("not an address", "20240217").filename(), None);
    assert_eq!(
        image("https://www.bing.com/th?id=OHR.a_ROW99999999999999999999_UHD.jpg", "d").filename(),
        None
    );
    assert_eq!(image("https://www.bing.com/th?id=OHR.A_12-345_UHD.jpg", "d").filename(), None);
}

#[test]
fn answer_of_eight_records_gives_eight_images() {
    let names = ["A", "B", "C", "D", "E", "F", "G", "H"];
    let records: Vec<ImageInfo> = names
        .iter()
        .enumerate()
        .map(|(k, n)| {
            info(
                &format!("2024010{}", k + 1),
                &format!("/th?id=OHR.{n}_EN-US{k}_UHD.jpg&rf=LaDigue_UHD.jpg&pid=hp&w=3840"),
                &format!("Title {n} (© {n})"),
            )
        })
        .collect();
    let images = read_answer(200, Some(records)).unwrap();
    assert_eq!(images.len(), 8);
    for (k, n) in names.iter().enumerate() {
        assert_eq!(
            images[k].url,
            format!("https://www.bing.com/th?id=OHR.{n}_EN-US{k}_UHD.jpg&rf=LaDigue_UHD.jpg&pid=hp&w=3840")
        );
        assert_eq!(images[k].date, format!("2024010{}", k + 1));
        assert_eq!(images[k].title, format!("Title {n}"));
        assert_eq!(images[k].copyright, format!("© {n}"));
        assert_eq!(images[k].id(), Some(format!("OHR.{n}_EN-US{k}_UHD.jpg")));
        assert_eq!(images[k].filename(), Some(format!("2024010{}_{n}.jpg", k + 1)));
    }
}

#[test]
fn answer_that_is_no_success_is_a_remote_error() {
    for status in [0u16, 100, 199, 300, 301, 404, 500, 503] {
        assert_eq!(read_answer(status, Some(vec![])).err(), Some(QueryError::Remote));
        assert_eq!(read_answer(status, None).err(), Some(QueryError::Remote));
        assert_eq!(
            read_answer(status, Some(vec![info("1", "http://[::1", "T (c)")])).err(),
            Some(QueryError::Remote)
        );
    }
}

#[test]
fn answer_without_records_is_a_parse_error() {
    assert_eq!(read_answer(200, None).err(), Some(QueryError::Parse));
    assert_eq!(read_answer(299, None).err(), Some(QueryError::Parse));
    assert_eq!(read_answer(200, Some(vec![])).unwrap().len(), 0);
}

#[test]
fn one_address_that_cannot_be_resolved_fails_the_answer() {
    let records = vec![
        info("1", "/a", "A (a)"),
        info("2", "http://[::1", "B (b)"),
        info("3", "/c", "C (c)"),
    ];
    assert_eq!(read_answer(200, Some(records)).err(), Some(QueryError::Resolve));
}

#[test]
fn record_without_caption_is_kept() {
    let records = vec![
        info("1", "/a", "A (a)"),
        info("2", "/b", "no caption"),
        info("3", "/c", ""),
        info("4", "/d", "D (d)"),
    ];
    let images = read_answer(200, Some(records)).unwrap();
    assert_eq!(images.len(), 4);
    let seen: Vec<(&str, &str, &str, &str)> = images
        .iter()
        .map(|i| (i.date.as_str(), i.url.as_str(), i.title.as_str(), i.copyright.as_str()))
        .collect();
    assert_eq!(
        seen,
        vec![
            ("1", "https://www.bing.com/a", "A", "a"),
            ("2", "https://www.bing.com/b", "no caption", ""),
            ("3", "https://www.bing.com/c", "", ""),
            ("4", "https://www.bing.com/d", "D", "d"),
        ]
    );
}

#[test]
fn eight_records_without_brackets_give_eight_images() {
    let records: Vec<ImageInfo> =
        (0..8).map(|k| info(&format!("d{k}"), &format!("/th?id=x{k}"), "Half Dome")).collect();
    let images = read_answer(200, Some(records)).unwrap();
    assert_eq!(images.len(), 8);
    for (k, i) in images.iter().enumerate() {
        assert_eq!(i.url, format!("https://www.bing.com/th?id=x{k}"));
        assert_eq!(i.date, format!("d{k}"));
        assert_eq!(i.title, "Half Dome");
    }
}

#[test]
fn unresolved_address_fails_the_answer_whatever_the_caption() {
    let records = vec![
        info("1", "/a", "A (a)"),
        info("2", "http://[::1", "no caption"),
        info("3", "/c", "C (c)"),
    ];
    assert_eq!(read_answer(200, Some(records)).err(), Some(QueryError::Resolve));
    let records = vec![info("1", "http://[::1", "")];
    assert_eq!(read_answer(200, Some(records)).err(), Some(QueryError::Resolve));
}
