//! Core material data: colors, shininess and texture-map references, as
//! plain values. Texture loading itself is the host application's work.

use vstd::prelude::*;

verus! {

/// An RGBA color with eight bits per channel.
#[derive(Clone, Copy, Debug, PartialEq, Eq, Structural)]
pub struct Color {
    pub red: u8,
    pub green: u8,
    pub blue: u8,
    pub alpha: u8,
}

impl Color {
    pub fn new(red: u8, green: u8, blue: u8, alpha: u8) -> (r: Color)
        ensures
            r == (Color { red, green, blue, alpha }),
    {
        Color { red, green, blue, alpha }
    }
}

/// A reference to one texture map of a material: the file it comes
/// from, the kind of map it is, and a slot for host-application data.
#[derive(Debug)]
pub struct MaterialMap {
    pub strFilename: String,
    pub mapType: String,
    pub userData: i32,
}

impl MaterialMap {
    pub fn new(strFilename: String, mapType: String, userData: i32) -> (r: MaterialMap)
        ensures
            r.strFilename@ == strFilename@,
            r.mapType@ == mapType@,
            r.userData == userData,
    {
        MaterialMap { strFilename, mapType, userData }
    }
}

/// A core material: its colors, its shininess (a fixed-point scalar)
/// and its texture maps.
#[derive(Debug)]
pub struct CalCoreMaterial {
    pub m_ambientColor: Color,
    pub m_diffuseColor: Color,
    pub m_specularColor: Color,
    pub m_shininess: i64,
    pub m_vectorMap: Vec<MaterialMap>,
}

impl CalCoreMaterial {
    pub fn new(
        m_ambientColor: Color,
        m_diffuseColor: Color,
        m_specularColor: Color,
        m_shininess: i64,
        m_vectorMap: Vec<MaterialMap>,
    ) -> (r: CalCoreMaterial)
        ensures
            r.m_ambientColor == m_ambientColor,
            r.m_diffuseColor == m_diffuseColor,
            r.m_specularColor == m_specularColor,
            r.m_shininess == m_shininess,
            r.m_vectorMap == m_vectorMap,
    {
        CalCoreMaterial { m_ambientColor, m_diffuseColor, m_specularColor, m_shininess, m_vectorMap }
    }

    pub fn getMaps(&self) -> (r: &Vec<MaterialMap>)
        ensures
            r == &self.m_vectorMap,
    {
        &self.m_vectorMap
    }
}

} // verus!
