use blocky::{DocEvent, EventClassAnnotator, NestingError, MAX_DEPTH};
use pulldown_cmark::{Event, Tag, TagEnd};

type Item = DocEvent<Event<'static>>;

fn txt(payload: &str) -> Item {
    DocEvent::Text(payload.to_string())
}

fn markup(payload: &str) -> Item {
    DocEvent::Html(payload.to_string())
}

fn drain(annotator: &mut EventClassAnnotator<Event<'static>>) -> Vec<Result<Item, NestingError>> {
    let mut items = Vec::new();
    while let Some(item) = annotator.next() {
        items.push(item);
    }
    items
}

#[test]
fn fresh_annotator_is_at_depth_zero() {
    let annotator: EventClassAnnotator<Event<'static>> = EventClassAnnotator::new(Vec::new());
    assert_eq!(annotator.depth(), 0);
}

#[test]
fn empty_stream_yields_nothing() {
    let mut annotator: EventClassAnnotator<Event<'static>> = EventClassAnnotator::new(Vec::new());
    assert_eq!(annotator.next(), None);
    assert_eq!(annotator.next(), None);
    assert_eq!(annotator.depth(), 0);
}

#[test]
fn events_are_read_in_order() {
    let mut annotator = EventClassAnnotator::new(vec![txt("one"), txt("two"), txt("three")]);
    assert_eq!(annotator.next(), Some(Ok(txt("one"))));
    assert_eq!(annotator.next(), Some(Ok(txt("two"))));
    assert_eq!(annotator.next(), Some(Ok(txt("three"))));
    assert_eq!(annotator.next(), None);
}

#[test]
fn depth_follows_markers() {
    let mut annotator = EventClassAnnotator::new(vec![
        txt("{:.warning}"),
        txt("{:.note}"),
        txt("{:/.note}"),
        txt("{:/.warning}"),
    ]);
    assert_eq!(annotator.next(), Some(Ok(markup("<div class=\"warning blocky-block\">"))));
    assert_eq!(annotator.depth(), 1);
    assert_eq!(
        annotator.next(),
        Some(Ok(markup("<div class=\"note blocky-block block-level-1\">")))
    );
    assert_eq!(annotator.depth(), 2);
    assert_eq!(annotator.next(), Some(Ok(markup("</div>"))));
    assert_eq!(annotator.depth(), 1);
    assert_eq!(annotator.next(), Some(Ok(markup("</div>"))));
    assert_eq!(annotator.depth(), 0);
    assert_eq!(annotator.next(), None);
}

#[test]
fn other_events_pass_through_untouched() {
    let input: Vec<Item> = vec![
        DocEvent::Other(Event::Start(Tag::Paragraph)),
        txt("plain text"),
        DocEvent::Other(Event::SoftBreak),
        markup("<b>"),
        DocEvent::Other(Event::Code("{:.code}".into())),
        markup("{:.markup}"),
        DocEvent::Other(Event::Text("{:.hidden}".into())),
        txt("{:.}"),
        DocEvent::Other(Event::End(TagEnd::Paragraph)),
    ];
    let mut annotator = EventClassAnnotator::new(input.clone());
    let output: Vec<Item> = drain(&mut annotator).into_iter().map(|item| item.unwrap()).collect();
    assert_eq!(output, input);
    assert_eq!(annotator.depth(), 0);
}

#[test]
fn pass_through_events_keep_their_order_around_markers() {
    let mut annotator = EventClassAnnotator::new(vec![
        txt("a"),
        txt("{:.box}"),
        txt("b"),
        DocEvent::Other(Event::Rule),
        txt("{:/.box}"),
        txt("c"),
    ]);
    let output: Vec<Item> = drain(&mut annotator).into_iter().map(|item| item.unwrap()).collect();
    assert_eq!(
        output,
        vec![
            txt("a"),
            markup("<div class=\"box blocky-block\">"),
            txt("b"),
            DocEvent::Other(Event::Rule),
            markup("</div>"),
            txt("c"),
        ]
    );
}

#[test]
fn close_name_is_not_compared_with_open_name() {
    let mut annotator = EventClassAnnotator::new(vec![txt("{:.warning}"), txt("{:/.note}")]);
    assert_eq!(annotator.next(), Some(Ok(markup("<div class=\"warning blocky-block\">"))));
    assert_eq!(annotator.next(), Some(Ok(markup("</div>"))));
    assert_eq!(annotator.depth(), 0);
}

#[test]
fn unmatched_close_ends_the_run() {
    let mut annotator = EventClassAnnotator::new(vec![txt("before"), txt("{:/.note}"), txt("after")]);
    assert_eq!(annotator.next(), Some(Ok(txt("before"))));
    assert_eq!(annotator.next(), Some(Err(NestingError::UnmatchedClose)));
    assert_eq!(annotator.depth(), 0);
    assert_eq!(annotator.next(), None);
    assert_eq!(annotator.next(), None);
}

#[test]
fn overflow_ends_the_run_at_full_depth() {
    let mut input: Vec<Item> = Vec::new();
    for _ in 0..255 {
        input.push(txt("{:.deep}"));
    }
    input.push(txt("{:/.deep}"));
    input.push(txt("after"));
    let mut annotator = EventClassAnnotator::new(input);
    for _ in 0..254 {
        assert!(matches!(annotator.next(), Some(Ok(DocEvent::Html(_)))));
    }
    assert_eq!(annotator.next(), Some(Err(NestingError::DepthOverflow)));
    assert_eq!(annotator.depth(), 254);
    assert_eq!(annotator.next(), None);
    assert_eq!(annotator.depth(), 254);
}

#[test]
fn open_marker_number_255_overflows() {
    let mut input: Vec<Item> = Vec::new();
    for _ in 0..255 {
        input.push(txt("{:.deep}"));
    }
    let mut annotator = EventClassAnnotator::new(input);
    for level in 1..=MAX_DEPTH {
        let expected = if level == 1 {
            "<div class=\"deep blocky-block\">".to_string()
        } else {
            format!("<div class=\"deep blocky-block block-level-{}\">", level - 1)
        };
        assert_eq!(annotator.next(), Some(Ok(DocEvent::Html(expected))));
        assert_eq!(annotator.depth(), level);
    }
    assert_eq!(annotator.next(), Some(Err(NestingError::DepthOverflow)));
    assert_eq!(annotator.depth(), 254);
    assert_eq!(annotator.next(), None);
}

#[test]
fn balanced_stream_ends_at_depth_zero_with_as_many_closes_as_opens() {
    let mut input: Vec<Item> = Vec::new();
    for round in 0..3 {
        for level in 0..40 {
            input.push(txt(&format!("{{:.r{}l{}}}", round, level)));
            input.push(txt("body"));
        }
        for level in 0..40 {
            input.push(txt(&format!("{{:/.r{}l{}}}", round, level)));
        }
    }
    let mut annotator = EventClassAnnotator::new(input);
    let output: Vec<Item> = drain(&mut annotator).into_iter().map(|item| item.unwrap()).collect();
    assert_eq!(annotator.depth(), 0);
    let opens = output
        .iter()
        .filter(|event| matches!(event, DocEvent::Html(markup) if markup.starts_with("<div class=\"")))
        .count();
    let closes = output.iter().filter(|event| **event == markup("</div>")).count();
    assert_eq!(opens, 120);
    assert_eq!(closes, 120);
    assert_eq!(output.len(), 360);
    assert_eq!(output[78], markup("<div class=\"r0l39 blocky-block block-level-39\">"));
    assert_eq!(output[79], txt("body"));
    assert_eq!(output[80], markup("</div>"));
}

#[test]
fn collect_gives_every_output_in_order() {
    let annotator = EventClassAnnotator::new(vec![
        DocEvent::Other(Event::Start(Tag::Paragraph)),
        txt("{:.warning}"),
        DocEvent::Other(Event::End(TagEnd::Paragraph)),
        txt("careful"),
        txt("{:/.warning}"),
    ]);
    assert_eq!(
        annotator.collect(),
        Ok(vec![
            DocEvent::Other(Event::Start(Tag::Paragraph)),
            markup("<div class=\"warning blocky-block\">"),
            DocEvent::Other(Event::End(TagEnd::Paragraph)),
            txt("careful"),
            markup("</div>"),
        ])
    );
}

#[test]
fn collect_accepts_blocks_left_open() {
    let annotator = EventClassAnnotator::new(vec![txt("{:.a}"), txt("{:.b}")]);
    assert_eq!(
        annotator.collect(),
        Ok(vec![
            markup("<div class=\"a blocky-block\">"),
            markup("<div class=\"b blocky-block block-level-1\">"),
        ])
    );
}

#[test]
fn collect_stops_at_first_error() {
    let annotator = EventClassAnnotator::new(vec![
        txt("{:.a}"),
        txt("{:/.a}"),
        txt("{:/.a}"),
        txt("{:.b}"),
    ]);
    assert_eq!(annotator.collect(), Err(NestingError::UnmatchedClose));

    let mut deep: Vec<Item> = Vec::new();
    for _ in 0..255 {
        deep.push(txt("{:.deep}"));
    }
    deep.push(txt("{:/.deep}"));
    assert_eq!(EventClassAnnotator::new(deep).collect(), Err(NestingError::DepthOverflow));
}

#[test]
fn collect_after_some_steps_goes_on_from_there() {
    let mut annotator = EventClassAnnotator::new(vec![txt("{:.a}"), txt("{:.b}"), txt("{:/.b}")]);
    assert_eq!(annotator.next(), Some(Ok(markup("<div class=\"a blocky-block\">"))));
    assert_eq!(
        annotator.collect(),
        Ok(vec![markup("<div class=\"b blocky-block block-level-1\">"), markup("</div>")])
    );
}

#[test]
fn nesting_of_254_is_accepted() {
    let mut input: Vec<Item> = Vec::new();
    for _ in 0..254 {
        input.push(txt("{:.deep}"));
    }
    for _ in 0..254 {
        input.push(txt("{:/.deep}"));
    }
    let output = EventClassAnnotator::new(input).collect().unwrap();
    assert_eq!(output.len(), 508);
    assert_eq!(output[253], markup("<div class=\"deep blocky-block block-level-253\">"));
    assert_eq!(output[254], markup("</div>"));
}
