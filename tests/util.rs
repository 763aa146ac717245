use simple_webserver::http10::result_codes::ResultCode;
use simple_webserver::util::{dir_listing, error_page};

#[test]
fn test_directory_listing() {
    let listing = dir_listing(vec!["./index.html".to_string(), "./banana.php".to_string()]);
    let html = "<html>\n\
            <head>\n\
                <title>Directory Listing</title>\n\
            </head>\n\
            <body>\n\
                <ul>\n\
                    <li><a href='../'>../</a></li>\n\
                    <li><a href='/index.html'>index.html</a></li>\n\
                    <li><a href='/banana.php'>banana.php</a></li>\n\
                </ul>\n\
            </body>\n\
        </html>";
    assert_eq!(listing, html);
}

#[test]
fn test_directory_listing_subpath() {
    let listing = dir_listing(vec![
        "./src/index.html".to_string(),
        "./yellow/banana.php".to_string(),
    ]);
    let html = "<html>\n\
            <head>\n\
                <title>Directory Listing</title>\n\
            </head>\n\
            <body>\n\
                <ul>\n\
                    <li><a href='../'>../</a></li>\n\
                    <li><a href='/src/index.html'>index.html</a></li>\n\
                    <li><a href='/yellow/banana.php'>banana.php</a></li>\n\
                </ul>\n\
            </body>\n\
        </html>";
    assert_eq!(listing, html);
}

#[test]
fn empty_directory_listing() {
    assert_eq!(
        dir_listing(vec![]),
        "<html>\n<head>\n<title>Directory Listing</title>\n</head>\n<body>\n<ul>\n<li><a href='../'>../</a></li>\n\n</ul>\n</body>\n</html>"
    );
}

#[test]
fn error_page_names_status() {
    assert_eq!(
        error_page(ResultCode::NotFound),
        "<html>\n<head>\n<title>404 Not Found</title>\n</head>\n<body>\n<h1>404 Not Found</h1>\n</body>\n</html>"
    );
}
