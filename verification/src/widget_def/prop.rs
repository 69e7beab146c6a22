//! Widget static properties

use vstd::prelude::*;
use crate::colors::ColorBg;
use crate::colors::ColorFg;
use crate::widget_def::ButtonStyle;
use crate::widget_def::PgBarStyle;
use crate::widget_def::Property;

verus! {

/// Properties of a Window widget
#[derive(Copy, Clone)]
pub struct Window {
    pub title: &'static str,
    pub fg_color: ColorFg,
    pub bg_color: ColorBg,
    pub is_popup: bool,
}

impl Window {
    /// Wraps the properties into the widget type
    pub fn into(self) -> (p: Property)
        ensures
            p == Property::Window(self),
    {
        Property::Window(self)
    }
}

/// Properties of a Panel widget
#[derive(Copy, Clone)]
pub struct Panel {
    pub title: &'static str,
    pub fg_color: ColorFg,
    pub bg_color: ColorBg,
    pub no_frame: bool,
}

impl Panel {
    /// Wraps the properties into the widget type
    pub fn into(self) -> (p: Property)
        ensures
            p == Property::Panel(self),
    {
        Property::Panel(self)
    }
}

/// Properties of a Label widget
#[derive(Copy, Clone)]
pub struct Label {
    pub title: &'static str,
    pub fg_color: ColorFg,
    pub bg_color: ColorBg,
}

impl Label {
    /// Wraps the properties into the widget type
    pub fn into(self) -> (p: Property)
        ensures
            p == Property::Label(self),
    {
        Property::Label(self)
    }
}

/// Properties of a TextEdit widget
#[derive(Copy, Clone)]
pub struct TextEdit {
    pub fg_color: ColorFg,
    pub bg_color: ColorBg,
    pub psw_mask: bool,
}

impl TextEdit {
    /// Wraps the properties into the widget type
    pub fn into(self) -> (p: Property)
        ensures
            p == Property::TextEdit(self),
    {
        Property::TextEdit(self)
    }
}

/// Properties of a CheckBox widget
#[derive(Copy, Clone)]
pub struct CheckBox {
    pub text: &'static str,
    pub fg_color: ColorFg,
}

impl CheckBox {
    /// Wraps the properties into the widget type
    pub fn into(self) -> (p: Property)
        ensures
            p == Property::CheckBox(self),
    {
        Property::CheckBox(self)
    }
}

/// Properties of a Radio widget
#[derive(Copy, Clone)]
pub struct Radio {
    pub text: &'static str,
    pub fg_color: ColorFg,
    pub group_id: u16,
    pub radio_id: i16,
}

impl Radio {
    /// Wraps the properties into the widget type
    pub fn into(self) -> (p: Property)
        ensures
            p == Property::Radio(self),
    {
        Property::Radio(self)
    }
}

/// Properties of a Button widget
#[derive(Copy, Clone)]
pub struct Button {
    pub text: &'static str,
    pub fg_color: ColorFg,
    pub bg_color: ColorBg,
    pub style: ButtonStyle,
}

impl Button {
    /// Wraps the properties into the widget type
    pub fn into(self) -> (p: Property)
        ensures
            p == Property::Button(self),
    {
        Property::Button(self)
    }
}

/// Properties of a Led widget
#[derive(Copy, Clone)]
pub struct Led {
    pub text: &'static str,
    pub fg_color: ColorFg,
    pub bg_color_off: ColorBg,
    pub bg_color_on: ColorBg,
}

impl Led {
    /// Wraps the properties into the widget type
    pub fn into(self) -> (p: Property)
        ensures
            p == Property::Led(self),
    {
        Property::Led(self)
    }
}

/// Properties of a PageCtrl widget
#[derive(Copy, Clone)]
pub struct PageCtrl {
    pub tab_width: u8,
    pub vert_offs: u8,
}

impl PageCtrl {
    /// Wraps the properties into the widget type
    pub fn into(self) -> (p: Property)
        ensures
            p == Property::PageCtrl(self),
    {
        Property::PageCtrl(self)
    }
}

/// Properties of a Page widget
#[derive(Copy, Clone)]
pub struct Page {
    pub title: &'static str,
    pub fg_color: ColorFg,
}

impl Page {
    /// Wraps the properties into the widget type
    pub fn into(self) -> (p: Property)
        ensures
            p == Property::Page(self),
    {
        Property::Page(self)
    }
}

/// Properties of a ProgressBar widget
#[derive(Copy, Clone)]
pub struct ProgressBar {
    pub fg_color: ColorFg,
    pub style: PgBarStyle,
}

impl ProgressBar {
    /// Wraps the properties into the widget type
    pub fn into(self) -> (p: Property)
        ensures
            p == Property::ProgressBar(self),
    {
        Property::ProgressBar(self)
    }
}

/// Properties of a ListBox widget
#[derive(Copy, Clone)]
pub struct ListBox {
    pub fg_color: ColorFg,
    pub bg_color: ColorBg,
    pub no_frame: bool,
}

impl ListBox {
    /// Wraps the properties into the widget type
    pub fn into(self) -> (p: Property)
        ensures
            p == Property::ListBox(self),
    {
        Property::ListBox(self)
    }
}

/// Properties of a ComboBox widget
#[derive(Copy, Clone)]
pub struct ComboBox {
    pub fg_color: ColorFg,
    pub bg_color: ColorBg,
    pub drop_down_size: u8,
}

impl ComboBox {
    /// Wraps the properties into the widget type
    pub fn into(self) -> (p: Property)
        ensures
            p == Property::ComboBox(self),
    {
        Property::ComboBox(self)
    }
}

/// Properties of a CustomWgt widget
#[derive(Copy, Clone)]
pub struct CustomWgt {
}

impl CustomWgt {
    /// Wraps the properties into the widget type
    pub fn into(self) -> (p: Property)
        ensures
            p == Property::CustomWgt(self),
    {
        Property::CustomWgt(self)
    }
}

/// Properties of a TextBox widget
#[derive(Copy, Clone)]
pub struct TextBox {
    pub fg_color: ColorFg,
    pub bg_color: ColorBg,
}

impl TextBox {
    /// Wraps the properties into the widget type
    pub fn into(self) -> (p: Property)
        ensures
            p == Property::TextBox(self),
    {
        Property::TextBox(self)
    }
}

/// Properties of a Layer widget
#[derive(Copy, Clone)]
pub struct Layer {
}

impl Layer {
    /// Wraps the properties into the widget type
    pub fn into(self) -> (p: Property)
        ensures
            p == Property::Layer(self),
    {
        Property::Layer(self)
    }
}

} // verus!
