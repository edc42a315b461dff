use scrape_pipeline::config::HTMLSelector;
use scrape_pipeline::config::ScraperStep;
use scrape_pipeline::pipeline::CrawlState;
use scrape_pipeline::pipeline::MatchedElement;
use scrape_pipeline::pipeline::PlannedAdvance;
use scrape_pipeline::pipeline::ScrapeError;
use scrape_pipeline::pipeline::advance_from_html;
use scrape_pipeline::pipeline::expand_tasks;
use scrape_pipeline::pipeline::filter_new_downloads;
use scrape_pipeline::pipeline::plan_children;
use scrape_pipeline::pipeline::plan_downloads;

fn extract_step(sel: &str) -> ScraperStep {
    ScraperStep::ExtractHrefsFromHTML(HTMLSelector(sel.to_string()))
}

fn download_step(sel: &str) -> ScraperStep {
    ScraperStep::DownloadImage(HTMLSelector(sel.to_string()))
}

#[test]
fn definitions_carry_their_steps_in_order() {
    let def = scrape_pipeline::config::ScraperDefinition {
        dest: "out/manga".to_string(),
        urls: vec!["https://site.test/toc".to_string()],
        domain_whitelist: vec!["site.test".to_string()],
        steps: vec![extract_step("a.chapter"), download_step("img.page")],
    };
    let config = scrape_pipeline::config::Config { scrapers: vec![def] };
    assert_eq!(config.scrapers.len(), 1);
    let d = &config.scrapers[0];
    assert_eq!(d.dest, "out/manga");
    assert!(matches!(&d.steps[0], ScraperStep::ExtractHrefsFromHTML(s) if s.as_str() == "a.chapter"));
    assert!(matches!(&d.steps[1], ScraperStep::DownloadImage(s) if s.as_str() == "img.page"));
    let copy = d.steps[0].duplicate();
    assert!(matches!(&copy, ScraperStep::ExtractHrefsFromHTML(s) if s.as_str() == "a.chapter"));
}

#[test]
fn terminal_state_yields_nothing() {
    let state = CrawlState { dest: "out/manga".to_string(), steps: Vec::new() };
    let r = advance_from_html(&state, "https://site.test/", "<html><body></body></html>");
    assert!(matches!(r, Ok(PlannedAdvance::Terminal)));
}

#[test]
fn seed_page_fans_out_per_chapter() {
    let state = CrawlState {
        dest: "out/manga".to_string(),
        steps: vec![extract_step("a.chapter"), download_step("img.page")],
    };
    let body = "<html><body>\
        <a class=\"chapter\" href=\"/c/1\">Chapter 1</a>\
        <a class=\"chapter\" href=\"/c/2\">Chapter 2</a>\
        </body></html>";
    let r = advance_from_html(&state, "https://site.test/toc", body);
    let (plans, tail) = match r {
        Ok(PlannedAdvance::Expand { plans, tail }) => (plans, tail),
        other => panic!("expected link expansion, got {:?}", other),
    };
    assert_eq!(plans.len(), 2);
    assert_eq!(plans[0].path, "out/manga/Chapter 1");
    assert_eq!(plans[1].path, "out/manga/Chapter 2");
    assert_eq!(plans[0].href, "/c/1");
    assert_eq!(plans[1].href, "/c/2");
    assert_eq!(tail.len(), 1);
    assert!(matches!(&tail[0], ScraperStep::DownloadImage(s) if s.0 == "img.page"));

    let existing = vec![false, false];
    let tasks = expand_tasks(&plans, &existing, "https://site.test/toc", &tail).unwrap();
    assert_eq!(tasks.len(), 2);
    assert_eq!(tasks[0].url, "https://site.test/c/1");
    assert_eq!(tasks[1].url, "https://site.test/c/2");
    assert_eq!(tasks[0].state.dest, "out/manga/Chapter 1");
    assert_eq!(tasks[1].state.dest, "out/manga/Chapter 2");
    assert_eq!(tasks[0].state.steps.len(), 1);
    assert!(matches!(&tasks[0].state.steps[0], ScraperStep::DownloadImage(s) if s.0 == "img.page"));
}

#[test]
fn chapter_page_yields_ordered_batch() {
    let state = CrawlState {
        dest: "out/manga/Chapter 1".to_string(),
        steps: vec![download_step("img.page")],
    };
    let body = "<html><body>\
        <img class=\"page\" src=\"/img/a.jpg\"/>\
        <img class=\"page\" src=\"/img/b.jpg\"/>\
        <img class=\"page\" src=\"/img/c.jpg\"/>\
        </body></html>";
    let r = advance_from_html(&state, "https://site.test/c/1", body);
    let tasks = match r {
        Ok(PlannedAdvance::Download { tasks }) => tasks,
        other => panic!("expected a download batch, got {:?}", other),
    };
    assert_eq!(tasks.len(), 3);
    assert_eq!(tasks[0].dest_path(), "out/manga/Chapter 1/000-a.jpg");
    assert_eq!(tasks[1].dest_path(), "out/manga/Chapter 1/001-b.jpg");
    assert_eq!(tasks[2].dest_path(), "out/manga/Chapter 1/002-c.jpg");
    assert_eq!(tasks[0].src, "https://site.test/img/a.jpg");
    assert_eq!(tasks[1].src, "https://site.test/img/b.jpg");
    assert_eq!(tasks[2].src, "https://site.test/img/c.jpg");
}

#[test]
fn missing_href_is_fatal() {
    let state = CrawlState {
        dest: "out/manga".to_string(),
        steps: vec![extract_step("a.chapter"), download_step("img.page")],
    };
    let body = "<html><body>\
        <a class=\"chapter\" href=\"/c/1\">Chapter 1</a>\
        <a class=\"chapter\">Chapter 2</a>\
        </body></html>";
    let r = advance_from_html(&state, "https://site.test/toc", body);
    assert!(matches!(r, Err(ScrapeError::MissingAttribute)));
}

#[test]
fn missing_src_is_fatal() {
    let state =
        CrawlState { dest: "out/manga/Chapter 1".to_string(), steps: vec![download_step("img.page")] };
    let body = "<html><body><img class=\"page\"/></body></html>";
    let r = advance_from_html(&state, "https://site.test/c/1", body);
    assert!(matches!(r, Err(ScrapeError::MissingAttribute)));
}

#[test]
fn invalid_selector_is_fatal() {
    let state = CrawlState { dest: "out".to_string(), steps: vec![extract_step("a..b..(")] };
    let r = advance_from_html(&state, "https://site.test/", "<html></html>");
    assert!(matches!(r, Err(ScrapeError::InvalidSelector)));
}

#[test]
fn unresolvable_href_is_fatal() {
    let plans = plan_children(
        "out",
        &vec![MatchedElement { target: Some("/c/1".to_string()), text: "One".to_string() }],
    )
    .unwrap();
    let r = expand_tasks(&plans, &vec![false], "not a base url", &Vec::new());
    assert!(matches!(r, Err(ScrapeError::UrlResolution)));
}

#[test]
fn resource_url_without_filename_is_fatal() {
    let els = vec![MatchedElement {
        target: Some("mailto:someone@site.test".to_string()),
        text: String::new(),
    }];
    let r = plan_downloads("out", "https://site.test/c/1", &els);
    assert!(matches!(r, Err(ScrapeError::NoFilename)));
}

#[test]
fn existing_child_paths_are_skipped() {
    let plans = plan_children(
        "out",
        &vec![
            MatchedElement { target: Some("/c/1".to_string()), text: "One".to_string() },
            MatchedElement { target: Some("/c/2".to_string()), text: "Two".to_string() },
            MatchedElement { target: Some("/c/3".to_string()), text: "Three".to_string() },
        ],
    )
    .unwrap();
    let existing = vec![false, true, false];
    let tasks = expand_tasks(&plans, &existing, "https://site.test/", &Vec::new()).unwrap();
    assert_eq!(tasks.len(), 2);
    assert_eq!(tasks[0].state.dest, "out/One");
    assert_eq!(tasks[1].state.dest, "out/Three");
}

#[test]
fn skipped_href_is_not_resolved() {
    // The only element whose target cannot resolve is also the one whose
    // path already exists: the batch must succeed without it.
    let plans = plan_children(
        "out",
        &vec![
            MatchedElement { target: Some("/c/1".to_string()), text: "One".to_string() },
            MatchedElement { target: Some("/c/2".to_string()), text: "Two".to_string() },
        ],
    )
    .unwrap();
    let existing = vec![true, false];
    let tasks = expand_tasks(&plans, &existing, "not a base url", &Vec::new());
    assert!(matches!(tasks, Err(ScrapeError::UrlResolution)));
    let tasks = expand_tasks(&plans, &vec![true, true], "not a base url", &Vec::new()).unwrap();
    assert_eq!(tasks.len(), 0);
}

#[test]
fn existing_downloads_are_skipped_and_keep_indices() {
    let els = vec![
        MatchedElement { target: Some("/i/a.jpg".to_string()), text: String::new() },
        MatchedElement { target: Some("/i/b.jpg".to_string()), text: String::new() },
        MatchedElement { target: Some("/i/c.jpg".to_string()), text: String::new() },
    ];
    let tasks = plan_downloads("out/ch", "https://site.test/c/1", &els).unwrap();
    let existing = vec![true, false, true];
    let batch = filter_new_downloads(&tasks, &existing);
    assert_eq!(batch.len(), 1);
    assert_eq!(batch[0].dest_path(), "out/ch/001-b.jpg");
}

#[test]
fn duplicate_filenames_do_not_collide() {
    let els = vec![
        MatchedElement { target: Some("/one/page.jpg".to_string()), text: String::new() },
        MatchedElement { target: Some("/two/page.jpg".to_string()), text: String::new() },
    ];
    let tasks = plan_downloads("out/ch", "https://site.test/", &els).unwrap();
    assert_eq!(tasks[0].dest_path(), "out/ch/000-page.jpg");
    assert_eq!(tasks[1].dest_path(), "out/ch/001-page.jpg");
}

#[test]
fn completed_tree_yields_no_work_on_second_run() {
    let els = vec![
        MatchedElement { target: Some("/c/1".to_string()), text: "One".to_string() },
        MatchedElement { target: Some("/c/2".to_string()), text: "Two".to_string() },
    ];
    let plans = plan_children("out", &els).unwrap();
    let all_existing = vec![true, true];
    let tasks = expand_tasks(&plans, &all_existing, "https://site.test/", &Vec::new()).unwrap();
    assert_eq!(tasks.len(), 0);

    let dl = plan_downloads("out/ch", "https://site.test/", &els).unwrap();
    let batch = filter_new_downloads(&dl, &vec![true, true]);
    assert_eq!(batch.len(), 0);
}

#[test]
fn percent_encoded_filenames_are_decoded() {
    let els = vec![MatchedElement {
        target: Some("/files/My%20Page.jpg".to_string()),
        text: String::new(),
    }];
    let tasks = plan_downloads("out", "https://site.test/", &els).unwrap();
    assert_eq!(tasks[0].dest_path(), "out/000-My Page.jpg");
}

#[test]
fn relative_hrefs_resolve_against_the_page_url() {
    let plans = plan_children(
        "out",
        &vec![MatchedElement { target: Some("../x/y.html".to_string()), text: "X".to_string() }],
    )
    .unwrap();
    let tasks =
        expand_tasks(&plans, &vec![false], "https://site.test/a/b/page.html", &Vec::new()).unwrap();
    assert_eq!(tasks[0].url, "https://site.test/a/x/y.html");
}

#[test]
fn link_text_is_sanitized_into_the_path() {
    let plans = plan_children(
        "out",
        &vec![MatchedElement {
            target: Some("/c/1".to_string()),
            text: "Read: part/one".to_string(),
        }],
    )
    .unwrap();
    assert_eq!(plans[0].path, "out/Read_ part_one");
}
