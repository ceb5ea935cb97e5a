use vstd::prelude::*;
use vstd::string::StringExecFns;
use crate::error::LoadError;
use crate::gzip::{gunzip_of, read_gzip};
use crate::idx::{
    images_fit, images_of, labels_fit, labels_of, pixels, read_mnist_images, read_mnist_labels,
};

verus! {

/// What decoding one split yields from its two gzip archives: the labels and
/// the images, or the first failure met. The label archive is read first.
pub open spec fn decode_split(labels_gz: Seq<u8>, images_gz: Seq<u8>) -> Result<
    (Seq<u8>, Seq<Seq<u8>>),
    LoadError,
> {
    match gunzip_of(labels_gz) {
        None => Err(LoadError::Gzip),
        Some(l) => if !labels_fit(l) {
            Err(LoadError::Truncated)
        } else {
            match gunzip_of(images_gz) {
                None => Err(LoadError::Gzip),
                Some(im) => if !images_fit(im) {
                    Err(LoadError::Truncated)
                } else {
                    Ok((labels_of(l), images_of(im)))
                },
            }
        },
    }
}

/// The dataset in memory: labels and raw pixel images of the training and
/// test splits, with the base URL and the directory the archives live in.
/// Pixel `b` of an image stands for the intensity `b / 255`.
#[derive(Debug)]
pub struct MnistReader {
    pub train_labels: Vec<u8>,
    pub train_data: Vec<Vec<u8>>,
    pub test_labels: Vec<u8>,
    pub test_data: Vec<Vec<u8>>,
    pub mnist_url: String,
    pub save_dir: String,
}

impl MnistReader {
    /// The split's labels and images are `labels` and `images`.
    pub open spec fn holds_split(&self, is_train: bool, labels: Seq<u8>, images: Seq<Seq<u8>>) -> bool {
        if is_train {
            self.train_labels@ == labels && pixels(self.train_data@) == images
        } else {
            self.test_labels@ == labels && pixels(self.test_data@) == images
        }
    }

    /// Everything but the split `is_train` is as in `other`.
    pub open spec fn same_but_split(&self, other: &MnistReader, is_train: bool) -> bool {
        &&& self.mnist_url == other.mnist_url
        &&& self.save_dir == other.save_dir
        &&& is_train ==> self.test_labels == other.test_labels && self.test_data == other.test_data
        &&& !is_train ==> self.train_labels == other.train_labels && self.train_data
            == other.train_data
    }

    /// An empty reader for the archives under `save_dir`, fetched from the
    /// default base URL.
    pub fn new(save_dir: &str) -> (r: MnistReader)
        ensures
            r.train_labels@.len() == 0,
            r.train_data@.len() == 0,
            r.test_labels@.len() == 0,
            r.test_data@.len() == 0,
            r.mnist_url@ == crate::fetch::MNIST_DATA_URL@,
            r.save_dir@ == save_dir@,
    {
        MnistReader {
            train_labels: Vec::new(),
            train_data: Vec::new(),
            test_labels: Vec::new(),
            test_data: Vec::new(),
            mnist_url: String::from_str(crate::fetch::MNIST_DATA_URL),
            save_dir: String::from_str(save_dir),
        }
    }

    /// Decodes one split from its gzip archives and stores it: the training
    /// split where `is_train` holds, the test split otherwise. On failure the
    /// reader is left as it was.
    pub fn load_data(&mut self, is_train: bool, labels_gz: &[u8], images_gz: &[u8]) -> (r: Result<
        (),
        LoadError,
    >)
        ensures
            final(self).same_but_split(old(self), is_train),
            match decode_split(labels_gz@, images_gz@) {
                Ok((l, im)) => r is Ok && final(self).holds_split(is_train, l, im),
                Err(e) => r == Err::<(), LoadError>(e) && *final(self) == *old(self),
            },
    {
        let label_bytes = match read_gzip(labels_gz) {
            Ok(b) => b,
            Err(e) => return Err(e),
        };
        let labels = match read_mnist_labels(label_bytes.as_slice()) {
            Ok(l) => l,
            Err(e) => return Err(e),
        };
        let image_bytes = match read_gzip(images_gz) {
            Ok(b) => b,
            Err(e) => return Err(e),
        };
        let images = match read_mnist_images(image_bytes.as_slice()) {
            Ok(im) => im,
            Err(e) => return Err(e),
        };
        if is_train {
            self.train_labels = labels;
            self.train_data = images;
        } else {
            self.test_labels = labels;
            self.test_data = images;
        }
        Ok(())
    }

    /// Decodes both splits from the four gzip archives, the training split
    /// first. A failure stops the load: a training split that was decoded
    /// before the test split failed stays stored.
    pub fn load(
        &mut self,
        train_labels_gz: &[u8],
        train_images_gz: &[u8],
        test_labels_gz: &[u8],
        test_images_gz: &[u8],
    ) -> (r: Result<(), LoadError>)
        ensures
            final(self).mnist_url == old(self).mnist_url,
            final(self).save_dir == old(self).save_dir,
            match decode_split(train_labels_gz@, train_images_gz@) {
                Err(e) => r == Err::<(), LoadError>(e) && *final(self) == *old(self),
                Ok((tl, ti)) => {
                    &&& final(self).holds_split(true, tl, ti)
                    &&& match decode_split(test_labels_gz@, test_images_gz@) {
                        Err(e) => r == Err::<(), LoadError>(e) && final(self).test_labels
                            == old(self).test_labels && final(self).test_data
                            == old(self).test_data,
                        Ok((sl, si)) => r is Ok && final(self).holds_split(false, sl, si),
                    }
                },
            },
    {
        match self.load_data(true, train_labels_gz, train_images_gz) {
            Ok(()) => {},
            Err(e) => return Err(e),
        }
        self.load_data(false, test_labels_gz, test_images_gz)
    }
}

} // verus!
