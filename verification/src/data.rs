//! The catalogue entry.

use vstd::prelude::*;

verus! {

/// One known sound.
#[derive(Debug, PartialEq, Eq)]
pub struct Sound {
    /// Base name of the file; what a playback request names.
    pub name: String,
    /// Path below the asset root.
    pub path: String,
    /// Fingerprint of the file's bytes at the last scan.
    pub md5sum: [u8; 16],
    /// Identity given by the catalogue on insertion; zero before that.
    pub id: i64,
    /// How often the sound has been played.
    pub play_count: i64,
}

/// What a [`Sound`] stands for in contracts.
pub ghost struct SoundView {
    pub name: Seq<char>,
    pub path: Seq<char>,
    pub md5sum: Seq<u8>,
    pub id: int,
    pub play_count: int,
}

impl View for Sound {
    type V = SoundView;

    open spec fn view(&self) -> SoundView {
        SoundView {
            name: self.name@,
            path: self.path@,
            md5sum: self.md5sum@,
            id: self.id as int,
            play_count: self.play_count as int,
        }
    }
}

impl SoundView {
    /// The same entry with another play count.
    pub open spec fn with_play_count(self, play_count: int) -> SoundView {
        SoundView { play_count, ..self }
    }
}

impl Sound {
    /// A sound as a scan finds it: not yet in any catalogue, never played.
    pub fn new(name: String, path: String, md5sum: [u8; 16]) -> (sound: Sound)
        ensures
            sound@ == (SoundView {
                name: name@,
                path: path@,
                md5sum: md5sum@,
                id: 0,
                play_count: 0,
            }),
    {
        Sound { name, path, md5sum, id: 0, play_count: 0 }
    }

    /// An independent copy.
    pub fn duplicate(&self) -> (copy: Sound)
        ensures
            copy@ == self@,
    {
        Sound {
            name: self.name.clone(),
            path: self.path.clone(),
            md5sum: self.md5sum,
            id: self.id,
            play_count: self.play_count,
        }
    }
}

} // verus!
