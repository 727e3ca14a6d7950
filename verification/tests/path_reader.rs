use my_http_server::path_reader::HttpPathReader;
use my_http_server::swagger::{path_segments, swagger_route, swagger_redirect, SwaggerRoute};
use my_http_server::output::{HttpOutput, WebContentType};

#[test]
fn test_starts_with_case_insensitive() {
    let path = "/MyPath/Other";

    let reader = HttpPathReader::new(path);

    assert_eq!(true, reader.starts_with_case_insensitive("/mypath"));
    assert_eq!(true, reader.starts_with_case_insensitive("/MyPath"));
}

#[test]
fn test_starts_with_case_insensitive_exact_string() {
    let path = "/MyPath";

    let reader = HttpPathReader::new(path);

    assert_eq!(true, reader.starts_with_case_insensitive("/mypath"));
    assert_eq!(true, reader.starts_with_case_insensitive("/MyPath"));
}

#[test]
fn test_starts_with_case_insensitive_less_then_we_match() {
    let path = "/MyPat";

    let reader = HttpPathReader::new(path);

    assert_eq!(false, reader.starts_with_case_insensitive("/mypath"));
    assert_eq!(false, reader.starts_with_case_insensitive("/MyPath"));
}

#[test]
fn test_equals_to_case_insensitive() {
    let path = "/MyPath";

    let reader = HttpPathReader::new(path);

    assert_eq!(true, reader.equals_to_case_insensitive("/mypath"));
    assert_eq!(true, reader.equals_to_case_insensitive("/MyPath"));

    assert_eq!(false, reader.equals_to_case_insensitive("/mypat"));
    assert_eq!(false, reader.equals_to_case_insensitive("/MyPatht"));
    assert_eq!(false, reader.equals_to_case_insensitive("/mypatc"));
}

#[test]
fn equals_to_is_exact() {
    let reader = HttpPathReader::new("/MyPath");
    assert!(reader.equals_to("/MyPath"));
    assert!(!reader.equals_to("/mypath"));
    assert_eq!(reader.as_str(), "/MyPath");
    assert_eq!(reader.to_string(), "/MyPath");
}

#[test]
fn segments_leave_out_empty_pieces() {
    assert_eq!(path_segments("/swagger//index.html/"), vec!["swagger", "index.html"]);
    assert!(path_segments("/").is_empty());
    assert!(path_segments("").is_empty());
}

#[test]
fn documentation_routes() {
    assert_eq!(swagger_route("/"), SwaggerRoute::NotMine);
    assert_eq!(swagger_route("/api/items"), SwaggerRoute::NotMine);
    assert_eq!(swagger_route("/Swagger"), SwaggerRoute::NotMine);
    assert_eq!(swagger_route("/swagger"), SwaggerRoute::RedirectToIndex);
    assert_eq!(swagger_route("/swagger/INDEX.html"), SwaggerRoute::IndexPage);
    assert_eq!(swagger_route("/swagger/swagger-ui.css"), SwaggerRoute::Css);
    assert_eq!(swagger_route("/swagger/swagger-ui-bundle.js"), SwaggerRoute::BundleJs);
    assert_eq!(
        swagger_route("/swagger/swagger-ui-standalone-preset.js"),
        SwaggerRoute::StandalonePresetJs
    );
    assert_eq!(swagger_route("/swagger/favicon-32x32.png"), SwaggerRoute::Favicon32);
    assert_eq!(swagger_route("/swagger/favicon-16x16.png"), SwaggerRoute::Favicon16);
    assert_eq!(swagger_route("/swagger/v1/swagger.yaml"), SwaggerRoute::Definition);
    assert_eq!(swagger_route("/swagger/v1"), SwaggerRoute::NotMine);
    assert_eq!(swagger_route("/swagger/other"), SwaggerRoute::NotMine);
    assert_eq!(SwaggerRoute::IndexPage.content_type(), Some(WebContentType::Html));
    assert_eq!(SwaggerRoute::Definition.content_type(), Some(WebContentType::Json));
    assert_eq!(SwaggerRoute::NotMine.content_type(), None);
}

#[test]
fn bare_swagger_redirects_to_the_index() {
    match swagger_redirect("https", "example.com:8080") {
        HttpOutput::Redirect { url, .. } => {
            assert_eq!(url, "https://example.com:8080/swagger/index.html")
        }
        other => panic!("expected a redirect, got {:?}", other),
    }
    assert_eq!(swagger_redirect("http", "h").get_status_code(), 302);
}

#[test]
fn case_insensitive_comparison_is_symmetric_and_weaker_than_equality() {
    let a = HttpPathReader::new("/Api/Items");
    let b = HttpPathReader::new("/api/items");
    assert_eq!(a.equals_to_case_insensitive("/api/items"), b.equals_to_case_insensitive("/Api/Items"));
    assert!(a.equals_to("/Api/Items") && a.equals_to_case_insensitive("/Api/Items"));
    assert!(a.starts_with_case_insensitive("/API/ITEMS"));
    assert!(a.starts_with_case_insensitive(""));
}

#[test]
fn only_ascii_letters_are_folded() {
    let r = HttpPathReader::new("/Élan/X");
    assert!(r.starts_with_case_insensitive("/Élan/x"));
    assert!(!r.starts_with_case_insensitive("/élan"));
    assert!(!r.equals_to_case_insensitive("/élan/x"));
    assert!(r.equals_to_case_insensitive("/Élan/x"));
}
