use std::io::Write;

use flate2::write::GzEncoder;
use flate2::Compression;
use mnist_reader::{read_gzip, LoadError, MnistReader, MNIST_DATA_URL};

fn gz(bytes: &[u8]) -> Vec<u8> {
    let mut encoder = GzEncoder::new(Vec::new(), Compression::fast());
    encoder.write_all(bytes).unwrap();
    encoder.finish().unwrap()
}

fn label_file(labels: &[u8]) -> Vec<u8> {
    let mut data = vec![0u8, 0, 8, 1];
    data.extend_from_slice(&(labels.len() as u32).to_be_bytes());
    data.extend_from_slice(labels);
    data
}

fn image_file(count: u32, rows: u32, cols: u32, pixels: &[u8]) -> Vec<u8> {
    let mut data = vec![0u8, 0, 8, 3];
    data.extend_from_slice(&count.to_be_bytes());
    data.extend_from_slice(&rows.to_be_bytes());
    data.extend_from_slice(&cols.to_be_bytes());
    data.extend_from_slice(pixels);
    data
}

#[test]
fn test_download_files() {
    let save_dir = "data";
    let mut reader = MnistReader::new(save_dir);
    let train_labels_gz = gz(&label_file(&vec![7u8; 60000]));
    let train_images_gz = gz(&image_file(60000, 28, 28, &vec![0u8; 60000 * 784]));
    let test_labels_gz = gz(&label_file(&vec![3u8; 10000]));
    let test_images_gz = gz(&image_file(10000, 28, 28, &vec![0u8; 10000 * 784]));
    reader
        .load(&train_labels_gz, &train_images_gz, &test_labels_gz, &test_images_gz)
        .unwrap();
    assert!(!reader.train_labels.is_empty());
    assert!(!reader.train_data.is_empty());
    assert!(!reader.test_labels.is_empty());
    assert!(!reader.test_data.is_empty());
    assert_eq!(reader.train_labels.len(), 60000);
    assert_eq!(reader.train_data.len(), 60000);
    assert_eq!(reader.test_labels.len(), 10000);
    assert_eq!(reader.test_data.len(), 10000);
    let train_labels = reader.train_labels.clone();
    println!("train_labels: {:?}", train_labels.len());
}

#[test]
fn new_reader_is_empty() {
    let reader = MnistReader::new("mnist-data");
    assert!(reader.train_labels.is_empty());
    assert!(reader.train_data.is_empty());
    assert!(reader.test_labels.is_empty());
    assert!(reader.test_data.is_empty());
    assert_eq!(reader.mnist_url, MNIST_DATA_URL);
    assert_eq!(reader.mnist_url, "https://raw.githubusercontent.com/fgnt/mnist/master");
    assert_eq!(reader.save_dir, "mnist-data");
}

#[test]
fn read_gzip_decompresses() {
    let plain = vec![0u8, 0, 8, 1, 0, 0, 0, 3, 5, 0, 9];
    let packed = gz(&plain);
    assert_ne!(packed, plain);
    assert_eq!(read_gzip(&packed), Ok(plain));
}

#[test]
fn read_gzip_rejects_plain_bytes() {
    assert_eq!(read_gzip(&[0u8, 0, 8, 1, 5, 0, 9]), Err(LoadError::Gzip));
    assert_eq!(read_gzip(&[]), Err(LoadError::Gzip));
}

#[test]
fn load_fills_both_splits() {
    let mut reader = MnistReader::new("d");
    let tl = gz(&label_file(&[5, 0, 9]));
    let ti = gz(&image_file(3, 1, 2, &[1, 2, 3, 4, 5, 6]));
    let sl = gz(&label_file(&[4]));
    let si = gz(&image_file(1, 2, 1, &[255, 0]));
    assert_eq!(reader.load(&tl, &ti, &sl, &si), Ok(()));
    assert_eq!(reader.train_labels, vec![5u8, 0, 9]);
    assert_eq!(reader.train_data, vec![vec![1u8, 2], vec![3u8, 4], vec![5u8, 6]]);
    assert_eq!(reader.test_labels, vec![4u8]);
    assert_eq!(reader.test_data, vec![vec![255u8, 0]]);
}

#[test]
fn loading_twice_gives_identical_data() {
    let tl = gz(&label_file(&[1, 2]));
    let ti = gz(&image_file(2, 1, 1, &[10, 20]));
    let mut reader = MnistReader::new("d");
    reader.load(&tl, &ti, &tl, &ti).unwrap();
    let first = (reader.train_labels.clone(), reader.train_data.clone());
    reader.load(&tl, &ti, &tl, &ti).unwrap();
    assert_eq!(first, (reader.train_labels.clone(), reader.train_data.clone()));
    assert_eq!(reader.test_labels, reader.train_labels);
    assert_eq!(reader.test_data, reader.train_data);
}

#[test]
fn failed_training_split_leaves_reader_unchanged() {
    let mut reader = MnistReader::new("d");
    let good_l = gz(&label_file(&[1]));
    let good_i = gz(&image_file(1, 1, 1, &[9]));
    let bad = vec![1u8, 2, 3];
    assert_eq!(reader.load(&bad, &good_i, &good_l, &good_i), Err(LoadError::Gzip));
    assert!(reader.train_labels.is_empty());
    assert!(reader.test_labels.is_empty());
    let short_l = gz(&[0u8, 0, 8]);
    assert_eq!(reader.load(&short_l, &good_i, &good_l, &good_i), Err(LoadError::Truncated));
    let short_i = gz(&image_file(2, 1, 1, &[9]));
    assert_eq!(reader.load(&good_l, &short_i, &good_l, &good_i), Err(LoadError::Truncated));
    assert!(reader.train_labels.is_empty());
    assert!(reader.train_data.is_empty());
}

#[test]
fn failed_test_split_keeps_training_split() {
    let mut reader = MnistReader::new("d");
    let good_l = gz(&label_file(&[1]));
    let good_i = gz(&image_file(1, 1, 1, &[9]));
    assert_eq!(reader.load(&good_l, &good_i, &good_l, &[0u8; 4]), Err(LoadError::Gzip));
    assert_eq!(reader.train_labels, vec![1u8]);
    assert_eq!(reader.train_data, vec![vec![9u8]]);
    assert!(reader.test_labels.is_empty());
    assert!(reader.test_data.is_empty());
}

#[test]
fn load_data_stores_one_split() {
    let mut reader = MnistReader::new("d");
    let l = gz(&label_file(&[8, 6]));
    let i = gz(&image_file(2, 1, 1, &[0, 128]));
    assert_eq!(reader.load_data(false, &l, &i), Ok(()));
    assert!(reader.train_labels.is_empty());
    assert_eq!(reader.test_labels, vec![8u8, 6]);
    assert_eq!(reader.test_data, vec![vec![0u8], vec![128u8]]);
}
