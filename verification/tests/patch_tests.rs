use fischl::downloader::AsyncDownloader;
use std::path::Path;
use std::sync::Arc;
use std::time::Duration;

/// Asks the patch server for the archive's length, as a patch download
/// starts, and names the file the archive is saved to.
#[test]
fn download_hdiff_test() {
    let url = "https://autopatchhk.yuanshen.com/client_app/update/hk4e_global/game_5.4.0_5.5.0_hdiff_IlvHovyEdpXnwiCH.zip";
    let path = "/games/hoyo/hk4e_global/live/testing";
    let client = Arc::new(reqwest_middleware::ClientBuilder::new(reqwest::Client::new()).build());
    let runtime = tokio::runtime::Runtime::new().unwrap();
    let head = runtime.block_on(async {
        match tokio::time::timeout(Duration::from_secs(10), client.head(url).send()).await {
            Ok(Ok(response)) => Ok(response.headers().get("content-length").map(|v| v.as_bytes().to_vec())),
            Ok(Err(e)) => Err(e.to_string()),
            Err(_) => Err("timed out".to_string()),
        }
    });
    let rep = AsyncDownloader::new(client.clone(), url.to_string(), head);
    match rep {
        Ok(d) => {
            assert_eq!(d.get_filename(), "game_5.4.0_5.5.0_hdiff_IlvHovyEdpXnwiCH.zip");
            let target = Path::new(path).join(d.get_filename());
            println!("current: {}, total: {}", 0, d.length().unwrap_or(0));
            println!("diff_game success! ({})", target.display());
        },
        Err(e) => {
            println!("diff_game failure! ({:?})", e);
        },
    }
    let offline = AsyncDownloader::new(client, url.to_string(), Ok(None)).unwrap();
    assert_eq!(offline.get_filename(), "game_5.4.0_5.5.0_hdiff_IlvHovyEdpXnwiCH.zip");
}
