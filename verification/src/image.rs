//! Image categories and the header rules that tell them apart.

use vstd::prelude::*;

verus! {

/// Magic of a package image.
pub const PACKAGE_MAGIC: u32 = 0x327f68cd;

/// Magic shared by the single-component images.
pub const IMAGE_MAGIC: u32 = 0x327f68ab;

/// Total size of a full flash image: 32 MiB.
pub const FLASH_SIZE: u64 = 0x2000000;

/// Number of header bytes that classification looks at.
pub const HEADER_LEN: usize = 24;

/// The category of an image, without the file it was found in.
#[derive(Clone, Copy, Debug, PartialEq, Eq, Structural)]
pub enum ImageKind {
    Bootloader,
    Firmware,
    Nvdata,
    Userdefault,
    Package,
    Flash32M,
}

/// The category that the three header facts select, first matching rule
/// first; `None` where no rule matches.
pub open spec fn classify(magic: u32, size: u64, image_type: u32) -> Option<ImageKind> {
    if magic == PACKAGE_MAGIC {
        Some(ImageKind::Package)
    } else if magic == IMAGE_MAGIC && image_type == 2 {
        if size == FLASH_SIZE {
            Some(ImageKind::Flash32M)
        } else {
            Some(ImageKind::Bootloader)
        }
    } else if magic == IMAGE_MAGIC && image_type == 4 {
        Some(ImageKind::Firmware)
    } else if magic == IMAGE_MAGIC && image_type == 6 {
        Some(ImageKind::Nvdata)
    } else if magic == IMAGE_MAGIC && image_type == 15 {
        Some(ImageKind::Userdefault)
    } else {
        None
    }
}

/// The firmware type code that the download command takes for an image of
/// the category `kind`. A package is downloaded without one, and the full
/// flash image is not downloaded by that command.
pub open spec fn firmware_type(kind: ImageKind) -> Option<u32> {
    match kind {
        ImageKind::Bootloader => Some(2u32),
        ImageKind::Firmware => Some(4u32),
        ImageKind::Nvdata => Some(6u32),
        ImageKind::Userdefault => Some(15u32),
        ImageKind::Package => None,
        ImageKind::Flash32M => None,
    }
}

impl ImageKind {
    /// Applies the classification table to the three header facts.
    pub fn of(magic: u32, size: u64, image_type: u32) -> (kind: Option<ImageKind>)
        ensures
            kind == classify(magic, size, image_type),
    {
        if magic == PACKAGE_MAGIC {
            Some(ImageKind::Package)
        } else if magic != IMAGE_MAGIC {
            None
        } else if image_type == 2 {
            if size == FLASH_SIZE {
                Some(ImageKind::Flash32M)
            } else {
                Some(ImageKind::Bootloader)
            }
        } else if image_type == 4 {
            Some(ImageKind::Firmware)
        } else if image_type == 6 {
            Some(ImageKind::Nvdata)
        } else if image_type == 15 {
            Some(ImageKind::Userdefault)
        } else {
            None
        }
    }

    /// The firmware type code of the category, where it has one.
    pub fn fw_type(&self) -> (code: Option<u32>)
        ensures
            code == firmware_type(*self),
    {
        match self {
            ImageKind::Bootloader => Some(2),
            ImageKind::Firmware => Some(4),
            ImageKind::Nvdata => Some(6),
            ImageKind::Userdefault => Some(15),
            ImageKind::Package => None,
            ImageKind::Flash32M => None,
        }
    }
}

/// An image file: its category and the path it was opened under.
#[derive(Debug, PartialEq, Eq)]
pub enum DownloadFileType {
    Bootloader(String),
    Firmware(String),
    Nvdata(String),
    Userdefault(String),
    Package(String),
    /// A bootloader-shaped image of exactly 32 MiB, the whole flash.
    Flash32M(String),
}

impl Clone for DownloadFileType {
    fn clone(&self) -> (copy: Self)
        ensures
            copy@ == self@,
    {
        DownloadFileType::new(self.kind(), String::from_str(self.path()))
    }
}

/// What a `DownloadFileType` stands for.
pub struct Image {
    pub kind: ImageKind,
    pub file: Seq<char>,
}

impl View for DownloadFileType {
    type V = Image;

    open spec fn view(&self) -> Image {
        match self {
            DownloadFileType::Bootloader(file) => Image { kind: ImageKind::Bootloader, file: file@ },
            DownloadFileType::Firmware(file) => Image { kind: ImageKind::Firmware, file: file@ },
            DownloadFileType::Nvdata(file) => Image { kind: ImageKind::Nvdata, file: file@ },
            DownloadFileType::Userdefault(file) => Image {
                kind: ImageKind::Userdefault,
                file: file@,
            },
            DownloadFileType::Package(file) => Image { kind: ImageKind::Package, file: file@ },
            DownloadFileType::Flash32M(file) => Image { kind: ImageKind::Flash32M, file: file@ },
        }
    }
}

/// Why a file is no image.
#[derive(Clone, Copy, Debug, PartialEq, Eq, Structural)]
pub enum FileError {
    /// Fewer header bytes than classification needs; `available` were there.
    ReadError { available: usize },
    /// The header matches no rule of the classification table.
    UnrecognizedFormat,
}

/// The little-endian 32-bit number in the four bytes of `bytes` from `at`.
pub open spec fn le_u32(bytes: Seq<u8>, at: int) -> u32 {
    (bytes[at] + bytes[at + 1] * 0x100 + bytes[at + 2] * 0x1_0000 + bytes[at + 3] * 0x100_0000) as u32
}

/// The image that a file is, given its path, the bytes available at its
/// start and its total size: the magic is the number in bytes 0 to 3, the
/// image type the one in bytes 20 to 23.
pub open spec fn opened(file: Seq<char>, header: Seq<u8>, size: u64) -> Result<Image, FileError> {
    if header.len() < HEADER_LEN {
        Err(FileError::ReadError { available: header.len() as usize })
    } else {
        match classify(le_u32(header, 0), size, le_u32(header, 20)) {
            Some(kind) => Ok(Image { kind, file }),
            None => Err(FileError::UnrecognizedFormat),
        }
    }
}

/// A header with the package magic is a package, whatever its size and its
/// image type.
pub proof fn lemma_package_magic(file: Seq<char>, header: Seq<u8>, size: u64)
    requires
        header.len() >= HEADER_LEN,
        le_u32(header, 0) == PACKAGE_MAGIC,
    ensures
        opened(file, header, size) == Ok::<Image, FileError>(
            Image { kind: ImageKind::Package, file },
        ),
{
}

/// A header with the image magic and image type 2 is the full flash image
/// where the file has exactly 32 MiB, and a bootloader with any other size.
pub proof fn lemma_bootloader_or_flash(file: Seq<char>, header: Seq<u8>, size: u64)
    requires
        header.len() >= HEADER_LEN,
        le_u32(header, 0) == IMAGE_MAGIC,
        le_u32(header, 20) == 2,
    ensures
        size == 0x2000000 ==> opened(file, header, size) == Ok::<Image, FileError>(
            Image { kind: ImageKind::Flash32M, file },
        ),
        size != 0x2000000 ==> opened(file, header, size) == Ok::<Image, FileError>(
            Image { kind: ImageKind::Bootloader, file },
        ),
{
}

/// A header with the image magic and image type 4, 6 or 15 is firmware,
/// NVDATA or user defaults, in that order, whatever the size.
pub proof fn lemma_typed_image(file: Seq<char>, header: Seq<u8>, size: u64)
    requires
        header.len() >= HEADER_LEN,
        le_u32(header, 0) == IMAGE_MAGIC,
    ensures
        le_u32(header, 20) == 4 ==> opened(file, header, size) == Ok::<Image, FileError>(
            Image { kind: ImageKind::Firmware, file },
        ),
        le_u32(header, 20) == 6 ==> opened(file, header, size) == Ok::<Image, FileError>(
            Image { kind: ImageKind::Nvdata, file },
        ),
        le_u32(header, 20) == 15 ==> opened(file, header, size) == Ok::<Image, FileError>(
            Image { kind: ImageKind::Userdefault, file },
        ),
{
}

/// With fewer than 24 bytes, or with a magic that is neither of the two,
/// there is no image.
pub proof fn lemma_no_image(file: Seq<char>, header: Seq<u8>, size: u64)
    requires
        header.len() < HEADER_LEN || (le_u32(header, 0) != PACKAGE_MAGIC && le_u32(header, 0)
            != IMAGE_MAGIC),
    ensures
        opened(file, header, size) is Err,
        header.len() < HEADER_LEN ==> opened(file, header, size) == Err::<Image, FileError>(
            FileError::ReadError { available: header.len() as usize },
        ),
        header.len() >= HEADER_LEN ==> opened(file, header, size) == Err::<Image, FileError>(
            FileError::UnrecognizedFormat,
        ),
{
}

/// Reads the little-endian 32-bit number at `at`.
fn read_le_u32(bytes: &[u8], at: usize) -> (n: u32)
    requires
        at + 4 <= bytes.len(),
    ensures
        n == le_u32(bytes@, at as int),
{
    let b0: u32 = bytes[at] as u32;
    let b1: u32 = bytes[at + 1] as u32;
    let b2: u32 = bytes[at + 2] as u32;
    let b3: u32 = bytes[at + 3] as u32;
    b0 + b1 * 0x100 + b2 * 0x1_0000 + b3 * 0x100_0000
}

impl DownloadFileType {
    /// Puts `kind` and `file` together.
    pub fn new(kind: ImageKind, file: String) -> (image: DownloadFileType)
        ensures
            image@ == (Image { kind, file: file@ }),
    {
        match kind {
            ImageKind::Bootloader => DownloadFileType::Bootloader(file),
            ImageKind::Firmware => DownloadFileType::Firmware(file),
            ImageKind::Nvdata => DownloadFileType::Nvdata(file),
            ImageKind::Userdefault => DownloadFileType::Userdefault(file),
            ImageKind::Package => DownloadFileType::Package(file),
            ImageKind::Flash32M => DownloadFileType::Flash32M(file),
        }
    }

    /// Opens the image under the path `file`, given the bytes that could be
    /// read at its start and its total size. Only the first 24 bytes count,
    /// and with fewer there is no image.
    pub fn open(file: &str, header: &[u8], size: u64) -> (image: Result<DownloadFileType, FileError>)
        ensures
            match opened(file@, header@, size) {
                Ok(expected) => image matches Ok(found) && found@ == expected,
                Err(error) => image == Err::<DownloadFileType, FileError>(error),
            },
    {
        if header.len() < HEADER_LEN {
            return Err(FileError::ReadError { available: header.len() });
        }
        let magic = read_le_u32(header, 0);
        let image_type = read_le_u32(header, 20);
        match ImageKind::of(magic, size, image_type) {
            Some(kind) => Ok(DownloadFileType::new(kind, String::from_str(file))),
            None => Err(FileError::UnrecognizedFormat),
        }
    }

    /// The category of the image.
    pub fn kind(&self) -> (kind: ImageKind)
        ensures
            kind == self@.kind,
    {
        match self {
            DownloadFileType::Bootloader(_) => ImageKind::Bootloader,
            DownloadFileType::Firmware(_) => ImageKind::Firmware,
            DownloadFileType::Nvdata(_) => ImageKind::Nvdata,
            DownloadFileType::Userdefault(_) => ImageKind::Userdefault,
            DownloadFileType::Package(_) => ImageKind::Package,
            DownloadFileType::Flash32M(_) => ImageKind::Flash32M,
        }
    }

    /// The path the image was opened under.
    pub fn path(&self) -> (file: &str)
        ensures
            file@ == self@.file,
    {
        match self {
            DownloadFileType::Bootloader(file) => file.as_str(),
            DownloadFileType::Firmware(file) => file.as_str(),
            DownloadFileType::Nvdata(file) => file.as_str(),
            DownloadFileType::Userdefault(file) => file.as_str(),
            DownloadFileType::Package(file) => file.as_str(),
            DownloadFileType::Flash32M(file) => file.as_str(),
        }
    }
}

} // verus!
