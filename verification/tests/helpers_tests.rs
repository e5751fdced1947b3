use vs::html::{root_selector_for_fragment, wrap_fragment, HtmlSelection};
use vs::lua_strings::{split, trim, trim_prefix, trim_suffix};
use vs::text::join;

fn strings(items: &[&str]) -> Vec<String> {
    items.iter().map(|s| s.to_string()).collect()
}

#[test]
fn strings_split_like_str_split() {
    assert_eq!(split("a,b,,c", ","), strings(&["a", "b", "", "c"]));
    assert_eq!(split("a--b---c", "--"), strings(&["a", "b", "-c"]));
    assert_eq!(split("", ","), strings(&[""]));
    assert_eq!(split("abc", ""), strings(&["", "a", "b", "c", ""]));
    assert_eq!(split("", ""), strings(&["", ""]));
}

#[test]
fn strings_join_undoes_split() {
    for (s, sep) in [("a,b,,c", ","), ("a--b---c", "--"), ("abc", ""), ("", ";"), ("x", "x")] {
        assert_eq!(join(&split(s, sep), sep), s);
    }
}

#[test]
fn strings_trims() {
    assert_eq!(trim("--x-y--", "-"), "x-y");
    assert_eq!(trim("xyzhixzy", "xyz"), "hi");
    assert_eq!(trim("aaa", "a"), "");
    assert_eq!(trim_prefix("v1.2", "v"), "1.2");
    assert_eq!(trim_prefix("1.2", "v"), "1.2");
    assert_eq!(trim_suffix("node.exe", ".exe"), "node");
    assert_eq!(trim_suffix("node", ".exe"), "node");
}

#[test]
fn fragments_are_wrapped_by_shape() {
    assert_eq!(wrap_fragment(" <TR><td>1</td></tr>"), "<table><tbody> <TR><td>1</td></tr></tbody></table>");
    assert_eq!(root_selector_for_fragment(" <TR>"), "table > tbody > tr");
    assert_eq!(wrap_fragment("<td>1</td>"), "<table><tbody><tr><td>1</td></tr></tbody></table>");
    assert_eq!(root_selector_for_fragment("<th>"), "table > tbody > tr > *");
    assert_eq!(wrap_fragment("<thead></thead>"), "<table><tbody><tr><thead></thead></tr></tbody></table>");
    assert_eq!(root_selector_for_fragment("<thead>"), "table > tbody > tr > *");
    assert_eq!(wrap_fragment("<tbody></tbody>"), "<table><tbody></tbody></table>");
    assert_eq!(root_selector_for_fragment("<tbody>"), "table > tbody");
    assert_eq!(wrap_fragment("<div>x</div>"), "<vs-root><div>x</div></vs-root>");
    assert_eq!(root_selector_for_fragment("<div>"), "vs-root > *");
}

#[test]
fn html_html_each_should_iterate_matches() {
    let doc = HtmlSelection::parse("<div id='a'>A</div><div id='b'>B</div>");
    let found = doc.find("div").expect("selector parses");
    let ids: Vec<Option<String>> = found.each().into_iter().map(|(_, s)| s.attr("id")).collect();
    assert_eq!(ids, vec![Some(String::from("a")), Some(String::from("b"))]);
    let indexes: Vec<usize> = found.each().into_iter().map(|(i, _)| i).collect();
    assert_eq!(indexes, vec![1, 2]);
}

#[test]
fn html_find_should_match_archive_page_shape() {
    let page = r#"
            <div id="archive">
              <div class="toggle" id="go1.26.0">
                <table class="downloadtable">
                  <tbody>
                    <tr>
                      <td>go1.26.0.darwin-arm64.tar.gz</td>
                      <td>Archive</td>
                      <td>macOS</td>
                      <td>ARM64</td>
                      <td>unused</td>
                      <td>abc123</td>
                    </tr>
                  </tbody>
                </table>
              </div>
            </div>
            "#;
    let doc = HtmlSelection::parse(page);
    let archive = doc.find("div#archive").expect("selector parses");
    assert_eq!(archive.fragments().len(), 1);
    let toggles = archive.find(".toggle").expect("selector parses");
    assert_eq!(toggles.fragments().len(), 1);
    assert_eq!(toggles.attr("id"), Some(String::from("go1.26.0")));
    let rows = toggles.find("table.downloadtable tbody tr").expect("selector parses");
    assert_eq!(rows.fragments().len(), 1);
    let cells = rows.find("td").expect("selector parses");
    assert_eq!(cells.fragments().len(), 6);
    assert_eq!(cells.eq(0).text().expect("text"), "go1.26.0.darwin-arm64.tar.gz");
    assert_eq!(cells.eq(3).text().expect("text"), "ARM64");
    assert_eq!(cells.first().text().expect("text"), "go1.26.0.darwin-arm64.tar.gz");
    assert_eq!(cells.last().text().expect("text"), "abc123");
    assert!(cells.eq(9).fragments().is_empty());
}

#[test]
fn html_selections_keep_their_fragments() {
    let doc = HtmlSelection::parse("<p>x</p>");
    assert_eq!(doc.html(), "<p>x</p>");
    let paragraphs = doc.find("p").expect("selector parses");
    assert_eq!(paragraphs.html(), "<p>x</p>");
    assert_eq!(paragraphs.text().expect("text"), "x");
    assert!(doc.find("p[").is_err());
    assert!(HtmlSelection::new(Vec::new(), false).find("p[").is_err());
    assert!(HtmlSelection::new(Vec::new(), false).first().fragments().is_empty());
}

#[test]
fn find_should_keep_attributes_in_source_order() {
    let doc = HtmlSelection::parse("<div><a id='x' class='y' href='z'>t</a></div>");
    let found = doc.find("a").expect("selector parses");
    assert_eq!(found.fragments(), &vec![String::from("<a id=\"x\" class=\"y\" href=\"z\">t</a>")]);
    let again = doc.find("a").expect("selector parses");
    assert_eq!(found.fragments(), again.fragments());
}
