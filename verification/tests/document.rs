use pup::manipulation::{end_line, find_images, image_path, manipulate_mthed_line, md_manipulate};
use pup::matcher::MatchedLine;
use pup::response::FailedCases;
use pup::result::MdManipulationResult;

fn lines_of(texts: &[&str]) -> Vec<String> {
    texts.iter().map(|t| String::from(*t)).collect()
}

#[test]
fn scenario_second_upload_conflicts() {
    let mut lines = lines_of(&["![a](one.png)", "![b](two.png)", "![c](three.png)"]);
    let paths = find_images(&mut lines);
    assert_eq!(
        paths,
        vec![
            Some(String::from("one.png")),
            Some(String::from("two.png")),
            Some(String::from("three.png"))
        ]
    );
    let outcomes = vec![
        Ok(String::from("https://host/one.png")),
        Err(FailedCases::Conflict),
        Ok(String::from("https://host/three.png")),
    ];
    let mut res = MdManipulationResult::default();
    md_manipulate(&mut lines, &outcomes, &mut res);
    assert_eq!(res.total(), 3);
    assert_eq!(res.done(), 2);
    assert_eq!(res.failed(), 1);
    assert_eq!(
        lines,
        vec![
            String::from("![a](https://host/one.png)\n"),
            String::from("![b](two.png)\n"),
            String::from("![c](https://host/three.png)\n"),
        ]
    );
}

#[test]
fn line_count_and_order_are_kept() {
    let mut lines = lines_of(&[
        "# Title",
        "",
        "text ![x](img/x.png) more",
        "![remote](https://host/y.png)",
        "> 引用 ![图](图片.jpg)。",
        "last",
    ]);
    let paths = find_images(&mut lines);
    assert_eq!(paths.len(), 6);
    assert_eq!(
        paths,
        vec![
            None,
            None,
            Some(String::from("img/x.png")),
            None,
            Some(String::from("图片.jpg")),
            None
        ]
    );
    let outcomes: Vec<Result<String, FailedCases>> = vec![
        Ok(String::from("https://unused/0")),
        Err(FailedCases::NotCoveredCase),
        Ok(String::from("https://h/x.png")),
        Ok(String::from("https://unused/3")),
        Ok(String::from("https://h/图.jpg")),
        Err(FailedCases::Conflict),
    ];
    let mut res = MdManipulationResult::default();
    md_manipulate(&mut lines, &outcomes, &mut res);
    assert_eq!(
        lines,
        vec![
            String::from("# Title\n"),
            String::from("\n"),
            String::from("text ![x](https://h/x.png) more\n"),
            String::from("![remote](https://host/y.png)\n"),
            String::from("> 引用 ![图](https://h/图.jpg)。\n"),
            String::from("last\n"),
        ]
    );
    assert_eq!((res.total(), res.done(), res.failed()), (2, 2, 0));
}

#[test]
fn tally_adds_up_over_several_documents() {
    let mut res = MdManipulationResult::default();
    let mut first = lines_of(&["![a](a.png)\n", "plain\n"]);
    md_manipulate(
        &mut first,
        &vec![Err(FailedCases::ValidationFailed), Err(FailedCases::ValidationFailed)],
        &mut res,
    );
    assert_eq!(first, lines_of(&["![a](a.png)\n", "plain\n"]));
    assert_eq!((res.total(), res.done(), res.failed()), (1, 0, 1));
    let mut second = lines_of(&["![b](b.png)\n"]);
    md_manipulate(&mut second, &vec![Ok(String::from("https://h/b"))], &mut res);
    assert_eq!(second, lines_of(&["![b](https://h/b)\n"]));
    assert_eq!((res.total(), res.done(), res.failed()), (2, 1, 1));
    assert_eq!(res.done() + res.failed(), res.total());
}

#[test]
fn empty_document_changes_nothing() {
    let mut lines: Vec<String> = Vec::new();
    assert_eq!(find_images(&mut lines), Vec::<Option<String>>::new());
    let mut res = MdManipulationResult::default();
    md_manipulate(&mut lines, &Vec::new(), &mut res);
    assert!(lines.is_empty());
    assert_eq!((res.total(), res.done(), res.failed()), (0, 0, 0));
}

#[test]
fn end_line_appends_one_line_feed() {
    let mut line = String::from("abc");
    end_line(&mut line);
    assert_eq!(line, "abc\n");
    end_line(&mut line);
    assert_eq!(line, "abc\n\n");
}

#[test]
fn image_path_is_the_matched_text() {
    assert_eq!(image_path(&String::from("a ![b](c/d.png) e")), Some(String::from("c/d.png")));
    assert_eq!(image_path(&String::from("猫 ![猫](猫.png)")), Some(String::from("猫.png")));
    assert_eq!(image_path(&String::from("![b]()")), None);
    assert_eq!(image_path(&String::from("![b](https://x/y.png)")), None);
    assert_eq!(image_path(&String::from("no image")), None);
}

#[test]
fn one_line_takes_a_url_or_keeps_its_path() {
    let mut line = String::from("![a](a.png)");
    {
        let mut mth = MatchedLine::new(&mut line).unwrap();
        let failed = manipulate_mthed_line(&mut mth, &Err(FailedCases::Conflict));
        assert_eq!(failed, Err(FailedCases::Conflict));
    }
    assert_eq!(line, "![a](a.png)");
    {
        let mut mth = MatchedLine::new(&mut line).unwrap();
        let done = manipulate_mthed_line(&mut mth, &Ok(String::from("https://h/a.png")));
        assert_eq!(done, Ok(()));
    }
    assert_eq!(line, "![a](https://h/a.png)");
}

#[test]
fn second_link_of_a_line_stays() {
    let mut lines = lines_of(&["![a](x.png) ![b](y.png)", "![c]() ![d](z.png)"]);
    let paths = find_images(&mut lines);
    assert_eq!(paths, vec![Some(String::from("x.png")), None]);
    let outcomes = vec![Ok(String::from("https://h/u")), Ok(String::from("https://h/v"))];
    let mut res = MdManipulationResult::default();
    md_manipulate(&mut lines, &outcomes, &mut res);
    assert_eq!(
        lines,
        vec![
            String::from("![a](https://h/u) ![b](y.png)\n"),
            String::from("![c]() ![d](z.png)\n"),
        ]
    );
    assert_eq!((res.total(), res.done(), res.failed()), (1, 1, 0));
}
