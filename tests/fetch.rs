use mnist_reader::{archive_file, check_status, download_plan, join, render_image, LoadError};

#[test]
fn plan_lists_absent_archives_in_order() {
    assert_eq!(download_plan(&[true, false, true, false]), vec![1usize, 3]);
    assert_eq!(download_plan(&[false, false, false, false]), vec![0usize, 1, 2, 3]);
    assert_eq!(download_plan(&[]), Vec::<usize>::new());
}

#[test]
fn second_fetch_downloads_nothing() {
    let mut present = [false, true, false, true];
    let plan = download_plan(&present);
    assert_eq!(plan, vec![0usize, 2]);
    for &i in &plan {
        present[i] = true;
    }
    assert!(download_plan(&present).is_empty());
}

#[test]
fn archive_names_and_paths() {
    assert_eq!(archive_file(0), "train-images-idx3-ubyte.gz");
    assert_eq!(archive_file(1), "train-labels-idx1-ubyte.gz");
    assert_eq!(archive_file(2), "t10k-images-idx3-ubyte.gz");
    assert_eq!(archive_file(3), "t10k-labels-idx1-ubyte.gz");
    assert_eq!(
        join("https://example.org/mnist", archive_file(1)),
        "https://example.org/mnist/train-labels-idx1-ubyte.gz"
    );
    assert_eq!(join("data", "x.gz"), "data/x.gz");
    assert_eq!(join("", ""), "/");
}

#[test]
fn only_status_200_succeeds() {
    assert_eq!(check_status(200), Ok(()));
    assert_eq!(check_status(404), Err(LoadError::HttpStatus(404)));
    assert_eq!(check_status(201), Err(LoadError::HttpStatus(201)));
}

#[test]
fn render_rows_of_twenty_eight() {
    let mut image = vec![0u8; 30];
    image[0] = 128;
    image[1] = 127;
    image[29] = 255;
    let text = render_image(&image);
    let expected = format!("*{}\n_*\n", "_".repeat(27));
    assert_eq!(text, expected);
}

#[test]
fn render_full_image_and_empty() {
    let image = vec![200u8; 784];
    let text = render_image(&image);
    let lines: Vec<&str> = text.lines().collect();
    assert_eq!(lines.len(), 28);
    assert!(lines.iter().all(|l| *l == "*".repeat(28)));
    assert_eq!(render_image(&[]), "");
}
