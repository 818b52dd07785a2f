pub mod metin;
pub mod json;
pub mod jsonld;
pub mod html;
pub mod benzin;
pub mod sozluk;
pub mod inceleme;
pub mod gorunum;
pub mod komut;
