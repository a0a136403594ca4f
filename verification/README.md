# gnss_qc

Verified building blocks of GNSS quality control reports: what a processing
run gathers of RINEX and SP3 inputs (file summaries, observation series,
sampling gap histograms, orbit projections and residuals, RTK network
summaries), and what the HTML and PDF renditions show of it, in which order.

- `src/` is the library, written and proved with Verus. Every value it
  handles is plain data (floating point numbers are carried as their bit
  patterns); the layouts it produces (`pdf::PdfBlock`, `html::HtmlRow`,
  `report::QcPdfPart`, `report::QcHtmlSection`) say exactly which tables,
  rows and sections appear and in what order.
- `app/` is ordinary Rust around it: reading the RINEX and SP3 parsers'
  values into the library's types, drawing HTML with maud, PDF with genpdf
  and plots with plotters, and the floating point orbit residuals.
- `tests/` exercises the library on concrete values.
