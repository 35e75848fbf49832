//! Passive targets (cards) as reported by the PN532.

use vstd::prelude::*;

verus! {

/// A card found by a list-passive-target command.
#[derive(Debug, PartialEq)]
pub enum PassiveTarget {
    Iso14443a(Iso14443a),
    Felica(Felica),
}

/// An ISO/IEC 14443 Type A card.
#[derive(Debug, PartialEq)]
pub struct Iso14443a {
    uid: Vec<u8>,
    sak: u8,
    aqta: u16,
}

/// A FeliCa card.
#[derive(Debug, PartialEq)]
pub struct Felica {
    idm: [u8; 8],
    pmm: [u8; 8],
    system_codes: Vec<u16>,
}

/// Mathematical content of an [`Iso14443a`].
pub struct Iso14443aView {
    pub uid: Seq<u8>,
    pub sak: u8,
    pub atqa: u16,
}

/// Mathematical content of a [`Felica`].
pub struct FelicaView {
    pub idm: Seq<u8>,
    pub pmm: Seq<u8>,
    pub system_codes: Seq<u16>,
}

/// Mathematical content of a [`PassiveTarget`].
pub enum PassiveTargetView {
    Iso14443a(Iso14443aView),
    Felica(FelicaView),
}

/// SAK values announced by MIFARE Classic cards (1K, 4K, and 1K behind a
/// cascaded UID).
pub open spec fn is_mifare_classic_sak(sak: u8) -> bool {
    sak == 0x08 || sak == 0x18 || sak == 0x88
}

impl Iso14443aView {
    /// A MIFARE Classic card has one of the classic SAK values and a
    /// four-byte UID.
    pub open spec fn is_mifare_classic(self) -> bool {
        is_mifare_classic_sak(self.sak) && self.uid.len() == 4
    }
}

impl FelicaView {
    /// IDm and PMm are eight bytes each.
    pub open spec fn wf(self) -> bool {
        self.idm.len() == 8 && self.pmm.len() == 8
    }
}

impl View for Iso14443a {
    type V = Iso14443aView;

    closed spec fn view(&self) -> Iso14443aView {
        Iso14443aView { uid: self.uid@, sak: self.sak, atqa: self.aqta }
    }
}

impl View for Felica {
    type V = FelicaView;

    closed spec fn view(&self) -> FelicaView {
        FelicaView { idm: self.idm@, pmm: self.pmm@, system_codes: self.system_codes@ }
    }
}

impl View for PassiveTarget {
    type V = PassiveTargetView;

    open spec fn view(&self) -> PassiveTargetView {
        match self {
            PassiveTarget::Iso14443a(card) => PassiveTargetView::Iso14443a(card@),
            PassiveTarget::Felica(card) => PassiveTargetView::Felica(card@),
        }
    }
}

impl Iso14443a {
    pub fn new(uid: Vec<u8>, sak: u8, aqta: u16) -> (card: Self)
        ensures
            card@ == (Iso14443aView { uid: uid@, sak, atqa: aqta }),
    {
        Self { uid, sak, aqta }
    }

    pub fn get_uid(&self) -> (uid: &[u8])
        ensures
            uid@ == self@.uid,
    {
        self.uid.as_slice()
    }

    pub fn get_sak(&self) -> (sak: u8)
        ensures
            sak == self@.sak,
    {
        self.sak
    }

    pub fn get_aqta(&self) -> (atqa: u16)
        ensures
            atqa == self@.atqa,
    {
        self.aqta
    }

    pub fn is_mifare_classic(&self) -> (classic: bool)
        ensures
            classic == self@.is_mifare_classic(),
    {
        (self.sak == 8 || self.sak == 0x18 || self.sak == 0x88) && self.uid.len() == 4
    }
}

impl Felica {
    pub fn new(idm: [u8; 8], pmm: [u8; 8], system_codes: Vec<u16>) -> (card: Self)
        ensures
            card@ == (FelicaView { idm: idm@, pmm: pmm@, system_codes: system_codes@ }),
            card@.wf(),
    {
        Self { idm, pmm, system_codes }
    }

    pub fn get_idm(&self) -> (idm: &[u8; 8])
        ensures
            idm@ == self@.idm,
    {
        &self.idm
    }

    pub fn get_pmm(&self) -> (pmm: &[u8; 8])
        ensures
            pmm@ == self@.pmm,
    {
        &self.pmm
    }

    pub fn get_system_codes(&self) -> (codes: &[u16])
        ensures
            codes@ == self@.system_codes,
    {
        self.system_codes.as_slice()
    }
}

} // verus!
