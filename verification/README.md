# sysmon

The verified core of a system monitor applet for the COSMIC panel.

- `src/history.rs`: `History`, a fixed-length window of the newest samples
  of one measurement (push, resize, largest and newest sample).
- `src/chart.rs`: the chart models drawn on the panel (`HistoryChart`,
  `SimpleHistoryChart`, `SuperimposedHistoryChart`), their scales, the steps
  that stroke a chart's line, and the layering of two charts.
- `src/color.rs`: the color a chart is drawn in.
- `src/monitor.rs`: panel kinds, visibility, sampling settings, the window
  sizes at start, the sampling schedule and which panels are drawn.
- `src/state.rs`: `Monitor`, every window of the applet, and its update on
  each event, stated against the state machine `step`.
- `app/`: the COSMIC application, the readings through `sysinfo`, and the
  floating point drawing on the canvas.
