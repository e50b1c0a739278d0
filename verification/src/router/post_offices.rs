pub mod back_office;
pub mod external_com_ch;
pub mod nodes_info;
